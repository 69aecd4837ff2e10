use rspf::config::{
    Config, HeaderConfig, HeaderMode, ListenAddr, RejectPolicy, ServerConfig,
};
use rspf::engine::{decide, DecisionContext};
use rspf::net::IpAddress;
use rspf::proto::Action;
use rspf::spf::{ExplanationString, Identity, SpfOutcome, SpfResult};

fn base_config() -> Config {
    Config::new(ServerConfig {
        listen: vec![ListenAddr::parse("tcp:127.0.0.1:10045").unwrap()],
        test_only: false,
    })
}

fn config_with(
    helo_reject: RejectPolicy,
    mail_from_reject: RejectPolicy,
    permerror_reject: bool,
    temperror_defer: bool,
) -> Config {
    let mut cfg = base_config();
    cfg.policy.helo_reject = helo_reject;
    cfg.policy.mail_from_reject = mail_from_reject;
    cfg.policy.permerror_reject = permerror_reject;
    cfg.policy.temperror_defer = temperror_defer;
    cfg
}

fn outcome(identity: Identity, result: SpfResult) -> SpfOutcome {
    SpfOutcome {
        identity,
        result,
        cause: None,
    }
}

fn ctx() -> DecisionContext<'static> {
    DecisionContext {
        ip: IpAddress::parse("192.0.2.1").unwrap(),
        sender: "user@example.com",
        helo: "mail.example.com",
        recipient: "postmaster@ourdomain.com",
    }
}

fn fail() -> SpfResult {
    SpfResult::Fail(ExplanationString::Default)
}

#[test]
fn fail_policy_rejects_on_fail() {
    let cfg = config_with(RejectPolicy::Fail, RejectPolicy::Fail, false, false);
    let action = decide(
        &cfg,
        &outcome(Identity::Helo, SpfResult::Pass),
        &outcome(Identity::MailFrom, fail()),
        &ctx(),
    );
    assert!(matches!(action, Action::Reject(_)));
}

#[test]
fn fail_policy_does_not_reject_on_softfail() {
    let cfg = config_with(RejectPolicy::Fail, RejectPolicy::Fail, false, false);
    let action = decide(
        &cfg,
        &outcome(Identity::Helo, SpfResult::Pass),
        &outcome(Identity::MailFrom, SpfResult::Softfail),
        &ctx(),
    );
    assert!(matches!(action, Action::Prepend(_)));
}

#[test]
fn softfail_policy_rejects_on_softfail() {
    let cfg = config_with(RejectPolicy::Fail, RejectPolicy::SoftFail, false, false);
    let action = decide(
        &cfg,
        &outcome(Identity::Helo, SpfResult::Pass),
        &outcome(Identity::MailFrom, SpfResult::Softfail),
        &ctx(),
    );
    assert!(matches!(action, Action::Reject(_)));
}

#[test]
fn spf_not_pass_rejects_on_neutral() {
    let cfg = config_with(RejectPolicy::Fail, RejectPolicy::SpfNotPass, false, false);
    let action = decide(
        &cfg,
        &outcome(Identity::Helo, SpfResult::Pass),
        &outcome(Identity::MailFrom, SpfResult::Neutral),
        &ctx(),
    );
    assert!(matches!(action, Action::Reject(_)));
}

#[test]
fn spf_not_pass_rejects_on_none() {
    let cfg = config_with(RejectPolicy::Fail, RejectPolicy::SpfNotPass, false, false);
    let action = decide(
        &cfg,
        &outcome(Identity::Helo, SpfResult::Pass),
        &outcome(Identity::MailFrom, SpfResult::NoRecord),
        &ctx(),
    );
    assert!(matches!(action, Action::Reject(_)));
}

#[test]
fn spf_not_pass_accepts_pass() {
    let cfg = config_with(RejectPolicy::Fail, RejectPolicy::SpfNotPass, false, false);
    let action = decide(
        &cfg,
        &outcome(Identity::Helo, SpfResult::Pass),
        &outcome(Identity::MailFrom, SpfResult::Pass),
        &ctx(),
    );
    assert!(matches!(action, Action::Prepend(_)));
}

#[test]
fn never_policy_never_rejects_even_on_fail() {
    let cfg = config_with(RejectPolicy::Fail, RejectPolicy::Never, false, false);
    let action = decide(
        &cfg,
        &outcome(Identity::Helo, SpfResult::Pass),
        &outcome(Identity::MailFrom, fail()),
        &ctx(),
    );
    assert!(matches!(action, Action::Prepend(_)));
}

#[test]
fn no_check_policy_skips_even_on_fail() {
    let cfg = config_with(RejectPolicy::Fail, RejectPolicy::NoCheck, false, false);
    let action = decide(
        &cfg,
        &outcome(Identity::Helo, SpfResult::Pass),
        &outcome(Identity::MailFrom, fail()),
        &ctx(),
    );
    assert!(matches!(action, Action::Prepend(_)));
}

#[test]
fn permerror_reject_off_by_default() {
    let cfg = config_with(RejectPolicy::Fail, RejectPolicy::Fail, false, false);
    let action = decide(
        &cfg,
        &outcome(Identity::Helo, SpfResult::Pass),
        &outcome(Identity::MailFrom, SpfResult::Permerror),
        &ctx(),
    );
    assert!(matches!(action, Action::Prepend(_)));
}

#[test]
fn permerror_reject_on_rejects() {
    let cfg = config_with(RejectPolicy::Fail, RejectPolicy::Fail, true, false);
    let action = decide(
        &cfg,
        &outcome(Identity::Helo, SpfResult::Pass),
        &outcome(Identity::MailFrom, SpfResult::Permerror),
        &ctx(),
    );
    assert!(matches!(action, Action::Reject(_)));
}

#[test]
fn temperror_defer_off_by_default() {
    let cfg = config_with(RejectPolicy::Fail, RejectPolicy::Fail, false, false);
    let action = decide(
        &cfg,
        &outcome(Identity::Helo, SpfResult::Pass),
        &outcome(Identity::MailFrom, SpfResult::Temperror),
        &ctx(),
    );
    assert!(matches!(action, Action::Prepend(_)));
}

#[test]
fn temperror_defer_on_defers() {
    let cfg = config_with(RejectPolicy::Fail, RejectPolicy::Fail, false, true);
    let action = decide(
        &cfg,
        &outcome(Identity::Helo, SpfResult::Pass),
        &outcome(Identity::MailFrom, SpfResult::Temperror),
        &ctx(),
    );
    assert!(matches!(action, Action::DeferIfPermit(_)));
}

#[test]
fn no_check_skips_permerror_reject_too() {
    let cfg = config_with(RejectPolicy::Fail, RejectPolicy::NoCheck, true, true);
    let action = decide(
        &cfg,
        &outcome(Identity::Helo, SpfResult::Pass),
        &outcome(Identity::MailFrom, SpfResult::Permerror),
        &ctx(),
    );
    assert!(matches!(action, Action::Prepend(_)));
}

#[test]
fn helo_escalates_reject_even_when_mail_from_passes() {
    let cfg = config_with(RejectPolicy::Fail, RejectPolicy::Fail, false, false);
    let action = decide(
        &cfg,
        &outcome(Identity::Helo, fail()),
        &outcome(Identity::MailFrom, SpfResult::Pass),
        &ctx(),
    );
    assert!(matches!(action, Action::Reject(_)));
}

#[test]
fn mail_from_reject_is_not_downgraded_by_a_passing_helo() {
    let cfg = config_with(RejectPolicy::Fail, RejectPolicy::Fail, false, false);
    let action = decide(
        &cfg,
        &outcome(Identity::Helo, SpfResult::Pass),
        &outcome(Identity::MailFrom, fail()),
        &ctx(),
    );
    assert!(matches!(action, Action::Reject(_)));
}

#[test]
fn tie_prefers_mail_from_message() {
    let cfg = config_with(RejectPolicy::Fail, RejectPolicy::Fail, false, false);
    let action = decide(
        &cfg,
        &outcome(Identity::Helo, fail()),
        &outcome(Identity::MailFrom, fail()),
        &ctx(),
    );
    match action {
        Action::Reject(msg) => assert!(msg.contains("user@example.com")),
        other => panic!("expected Reject, got {other:?}"),
    }
}

#[test]
fn header_mode_none_produces_dunno_instead_of_prepend() {
    let mut cfg = config_with(RejectPolicy::Fail, RejectPolicy::Fail, false, false);
    cfg.header.mode = HeaderMode::NoHeader;
    let action = decide(
        &cfg,
        &outcome(Identity::Helo, SpfResult::Pass),
        &outcome(Identity::MailFrom, SpfResult::Pass),
        &ctx(),
    );
    assert_eq!(action, Action::Dunno);
}

#[test]
fn message_placeholders_are_substituted() {
    let cfg = config_with(RejectPolicy::Fail, RejectPolicy::Fail, false, false);
    let action = decide(
        &cfg,
        &outcome(Identity::Helo, SpfResult::Pass),
        &outcome(Identity::MailFrom, fail()),
        &ctx(),
    );
    match action {
        Action::Reject(msg) => {
            assert!(msg.contains("user@example.com"));
            assert!(msg.contains("192.0.2.1"));
            assert!(!msg.contains('{'));
        }
        other => panic!("expected Reject, got {other:?}"),
    }
}

#[test]
fn header_config_default() {
    assert_eq!(HeaderConfig::default().mode, HeaderMode::Spf);
}

// --- further scenarios ---

#[test]
fn reject_message_is_the_rendered_fail_template() {
    let cfg = config_with(RejectPolicy::Fail, RejectPolicy::Fail, false, false);
    let action = decide(
        &cfg,
        &outcome(Identity::Helo, SpfResult::Pass),
        &outcome(Identity::MailFrom, fail()),
        &ctx(),
    );
    assert_eq!(
        action,
        Action::Reject(
            "550 5.7.1 SPF check failed: user@example.com is not allowed to send mail from 192.0.2.1"
                .to_string()
        )
    );
}

#[test]
fn pass_prepends_the_received_spf_header_of_mail_from() {
    let cfg = base_config();
    let action = decide(
        &cfg,
        &outcome(Identity::Helo, SpfResult::Pass),
        &outcome(Identity::MailFrom, SpfResult::Pass),
        &ctx(),
    );
    assert_eq!(
        action,
        Action::Prepend(
            "Received-SPF: pass (domain of user@example.com does not designate a policy for 192.0.2.1) client-ip=192.0.2.1; envelope-from=\"user@example.com\"; helo=mail.example.com; receiver=\"ourdomain.com\"; identity=mailfrom;"
                .to_string()
        )
    );
}

#[test]
fn helo_defer_loses_to_mail_from_reject() {
    let cfg = config_with(RejectPolicy::Fail, RejectPolicy::Fail, false, true);
    let action = decide(
        &cfg,
        &outcome(Identity::Helo, SpfResult::Temperror),
        &outcome(Identity::MailFrom, fail()),
        &ctx(),
    );
    assert!(matches!(action, Action::Reject(_)));
}

#[test]
fn temperror_defer_message_uses_the_temperror_template() {
    let cfg = config_with(RejectPolicy::Fail, RejectPolicy::Fail, false, true);
    let action = decide(
        &cfg,
        &outcome(Identity::Helo, SpfResult::Pass),
        &outcome(Identity::MailFrom, SpfResult::Temperror),
        &ctx(),
    );
    assert_eq!(
        action,
        Action::DeferIfPermit(
            "451 4.7.1 Temporary SPF error for user@example.com, please try again later"
                .to_string()
        )
    );
}
