use rspf::mail_log::{describe_action, evaluated_spf_line, sanitize};
use rspf::net::IpAddress;
use rspf::proto::Action;
use rspf::spf::{ExplanationString, SpfResult};

#[test]
fn sanitize_replaces_control_characters() {
    assert_eq!(sanitize("mail.example.com"), "mail.example.com");
    assert_eq!(sanitize("evil\r\ninjected: line"), "evil  injected: line");
    assert_eq!(sanitize("nul\0byte"), "nul byte");
}

#[test]
fn describe_action_permit_with_no_detail() {
    assert_eq!(describe_action(&Action::Dunno), ("permit", None));
}

#[test]
fn describe_action_permit_with_header_detail() {
    let action = Action::Prepend("Received-SPF: pass".to_string());
    assert_eq!(
        describe_action(&action),
        ("permit", Some("Received-SPF: pass"))
    );
}

#[test]
fn describe_action_reject_with_reason() {
    let action = Action::Reject("550 5.7.1 denied".to_string());
    assert_eq!(
        describe_action(&action),
        ("reject", Some("550 5.7.1 denied"))
    );
}

#[test]
fn describe_action_defer_with_reason() {
    let action = Action::DeferIfPermit("4.7.1 try later".to_string());
    assert_eq!(describe_action(&action), ("defer", Some("4.7.1 try later")));
}

// --- further scenarios ---

#[test]
fn evaluated_spf_line_format() {
    let line = evaluated_spf_line(
        IpAddress::parse("192.0.2.10").unwrap(),
        Some("mail.example.com"),
        "mail.example.com",
        "user@example.com",
        &SpfResult::NoRecord,
        &SpfResult::Pass,
        &Action::Prepend("Received-SPF: pass (x)".to_string()),
    );
    assert_eq!(
        line,
        "status=permit (Received-SPF: pass (x)), from=<user@example.com>, client=mail.example.com[192.0.2.10], helo=mail.example.com, spf_helo=none, spf_mailfrom=pass"
    );
}

#[test]
fn evaluated_spf_line_defaults_and_sanitizes() {
    let line = evaluated_spf_line(
        IpAddress::parse("::1").unwrap(),
        None,
        "evil\nhelo",
        "",
        &SpfResult::Fail(ExplanationString::Default),
        &SpfResult::Temperror,
        &Action::Dunno,
    );
    assert_eq!(
        line,
        "status=permit, from=<>, client=unknown[::1], helo=evil helo, spf_helo=fail, spf_mailfrom=temperror"
    );
}

#[test]
fn evaluated_spf_line_reject_reason_comes_first() {
    let line = evaluated_spf_line(
        IpAddress::parse("198.51.100.7").unwrap(),
        None,
        "bad.example",
        "spoof@example.org",
        &SpfResult::Neutral,
        &SpfResult::Fail(ExplanationString::Default),
        &Action::Reject("550 5.7.1 denied\r\nx".to_string()),
    );
    assert_eq!(
        line,
        "status=reject (550 5.7.1 denied  x), from=<spoof@example.org>, client=unknown[198.51.100.7], helo=bad.example, spf_helo=neutral, spf_mailfrom=fail"
    );
}
