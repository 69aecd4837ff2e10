use rspf::config::HeaderConfig;
use rspf::spf::identity::mail_from_identity;
use rspf::net::IpAddress;
use rspf::spf::header::{describe_cause, recipient_domain};
use rspf::spf::{
    build_received_spf, ErrorCause, ExplanationString, Identity, OverrideLookup, SpfOutcome,
    SpfResult, SpfResultCause,
};

fn outcome(result: SpfResult, cause: Option<SpfResultCause>) -> SpfOutcome {
    SpfOutcome {
        identity: Identity::MailFrom,
        result,
        cause,
    }
}

fn ip() -> IpAddress {
    IpAddress::parse("192.0.2.1").unwrap()
}

#[test]
fn includes_result_and_client_ip() {
    let header = build_received_spf(
        &outcome(SpfResult::Pass, None),
        ip(),
        "user@example.com",
        "mail.example.com",
        "postmaster@ourdomain.com",
        &HeaderConfig::default(),
    );
    assert!(header.starts_with("pass ("));
    assert!(header.contains("client-ip=192.0.2.1"));
    assert!(header.contains("envelope-from=\"user@example.com\""));
    assert!(header.contains("helo=mail.example.com"));
    assert!(header.contains("identity=mailfrom"));
}

#[test]
fn hide_receiver_uses_unknown() {
    let cfg = HeaderConfig {
        hide_receiver: true,
        ..HeaderConfig::default()
    };
    let header = build_received_spf(
        &outcome(SpfResult::Pass, None),
        ip(),
        "user@example.com",
        "mail.example.com",
        "postmaster@ourdomain.com",
        &cfg,
    );
    assert!(header.contains("receiver=\"UNKNOWN\""));
}

#[test]
fn authserv_id_overrides_receiver_domain() {
    let cfg = HeaderConfig {
        authserv_id: Some("mx.ourdomain.com".to_string()),
        ..HeaderConfig::default()
    };
    let header = build_received_spf(
        &outcome(SpfResult::Pass, None),
        ip(),
        "user@example.com",
        "mail.example.com",
        "postmaster@ourdomain.com",
        &cfg,
    );
    assert!(header.contains("receiver=\"mx.ourdomain.com\""));
}

#[test]
fn error_cause_is_described() {
    let header = build_received_spf(
        &outcome(
            SpfResult::Temperror,
            Some(SpfResultCause::Error(ErrorCause::Timeout)),
        ),
        ip(),
        "user@example.com",
        "mail.example.com",
        "postmaster@ourdomain.com",
        &HeaderConfig::default(),
    );
    assert!(header.starts_with("temperror ("));
    assert!(header.contains("DNS lookup timed out"));
}

// --- further scenarios ---

#[test]
fn whole_header_for_a_matched_mechanism() {
    let header = build_received_spf(
        &SpfOutcome {
            identity: Identity::Helo,
            result: SpfResult::Fail(ExplanationString::External("go away".to_string())),
            cause: Some(SpfResultCause::Match("-all".to_string())),
        },
        IpAddress::parse("2001:db8::1").unwrap(),
        "user@example.com",
        "mail.example.com",
        "rcpt@ourdomain.com",
        &HeaderConfig::default(),
    );
    assert_eq!(
        header,
        "fail (go away) (domain of user@example.com designates 2001:db8::1 as fail (go away), matched \"-all\") client-ip=2001:db8::1; envelope-from=\"user@example.com\"; helo=mail.example.com; receiver=\"ourdomain.com\"; identity=helo;"
    );
}

#[test]
fn recipient_domain_rules() {
    assert_eq!(recipient_domain("a@b.example", None), "b.example");
    assert_eq!(recipient_domain("a@b@c.example", None), "c.example");
    assert_eq!(recipient_domain("nobody", None), "UNKNOWN");
    assert_eq!(recipient_domain("a@b.example", Some("mx.id")), "mx.id");
}

#[test]
fn cause_descriptions() {
    assert_eq!(
        describe_cause(&outcome(SpfResult::NoRecord, None), "u@d", ip()),
        "domain of u@d does not designate a policy for 192.0.2.1"
    );
    assert_eq!(
        describe_cause(
            &outcome(
                SpfResult::Permerror,
                Some(SpfResultCause::Error(ErrorCause::VoidLookupLimitExceeded))
            ),
            "u@d",
            ip()
        ),
        "void lookup limit exceeded"
    );
}

#[test]
fn result_texts() {
    assert_eq!(SpfResult::NoRecord.to_string(), "none");
    assert_eq!(SpfResult::Fail(ExplanationString::Default).to_string(), "fail");
    assert_eq!(SpfResult::Softfail.to_string(), "softfail");
    assert_eq!(ErrorCause::MultipleSpfRecords.to_string(), "more than one SPF record found");
}

#[test]
fn permerror_outcome_has_no_cause() {
    let o = SpfOutcome::permerror(Identity::Helo);
    assert_eq!(o.identity, Identity::Helo);
    assert_eq!(o.result, SpfResult::Permerror);
    assert!(o.cause.is_none());
}

#[test]
fn override_present_replaces_txt_lookup() {
    let lookup = OverrideLookup::new((), vec![("example.com".to_string(), "v=spf1 +all".to_string())]);
    assert_eq!(lookup.override_for("example.com").as_deref(), Some("v=spf1 +all"));
}

#[test]
fn override_absent_falls_through_to_inner() {
    let lookup = OverrideLookup::new(7u8, vec![("other.com".to_string(), "v=spf1 +all".to_string())]);
    assert_eq!(lookup.override_for("example.com"), None);
    assert_eq!(*lookup.inner(), 7u8);
}

#[test]
fn override_matching_is_case_insensitive() {
    let lookup = OverrideLookup::new((), vec![("example.com".to_string(), "v=spf1 +all".to_string())]);
    assert_eq!(lookup.override_for("EXAMPLE.COM").as_deref(), Some("v=spf1 +all"));
}

#[test]
fn override_keys_are_compared_as_written() {
    let lookup = OverrideLookup::new((), vec![("Example.com".to_string(), "v=spf1 +all".to_string())]);
    assert_eq!(lookup.override_for("example.com"), None);
}

#[test]
fn helo_identity_needs_a_domain() {
    let (sender, text, domain) = rspf::spf::identity::helo_identity("mail.example.com").unwrap();
    assert_eq!(text, "mail.example.com");
    assert_eq!(sender.domain().to_string(), "mail.example.com");
    assert_eq!(domain.to_string(), "mail.example.com");
    assert!(rspf::spf::identity::helo_identity("user@example.com").is_none());
}

#[test]
fn null_sender_is_checked_as_the_helo_domain() {
    let (sender, text, helo_domain) = mail_from_identity("", "mail.example.com").unwrap();
    assert_eq!(text, "mail.example.com");
    assert_eq!(sender.domain().to_string(), "mail.example.com");
    assert!(helo_domain.is_some());
    assert!(mail_from_identity("not-an-email-address", "mail.example.com").is_none());
    let (sender, text, _) = mail_from_identity("user@example.com", "mail.example.com").unwrap();
    assert_eq!(text, "user@example.com");
    assert_eq!(sender.domain().to_string(), "example.com");
    assert_eq!(sender.local_part(), "user");
}
