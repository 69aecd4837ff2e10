//! The policy decision: turns the HELO and MAIL FROM SPF outcomes into one
//! Postfix policy action.
use vstd::prelude::*;

use crate::config::{Config, HeaderMode, MessageTemplates, RejectPolicy};
use crate::net::ip::ip_text;
use crate::net::IpAddress;
use crate::proto::{Action, ActionView};
use crate::spf::header::received_spf_text;
use crate::spf::outcome::spf_result_text;
use crate::spf::{build_received_spf, SpfOutcome, SpfResult};
use crate::text::{append_str, chars_of, replace_all, replace_str, string_of};

verus! {

/// Everything about the request that a rendered reject/defer message or
/// `Received-SPF` header may need to reference.
pub struct DecisionContext<'a> {
    pub ip: IpAddress,
    pub sender: &'a str,
    pub helo: &'a str,
    pub recipient: &'a str,
}

/// How severe the reaction to one identity's result is.
#[derive(Debug, Clone, Copy, PartialEq, Eq, Structural)]
pub enum Severity {
    /// No reaction: the result cannot drive a reject or defer.
    Accept,
    Defer,
    Reject,
}

pub open spec fn rank(s: Severity) -> int {
    match s {
        Severity::Accept => 0,
        Severity::Defer => 1,
        Severity::Reject => 2,
    }
}

/// The reaction that `policy` and the global toggles call for on `result`.
pub open spec fn severity_of(
    policy: RejectPolicy,
    result: SpfResult,
    permerror_reject: bool,
    temperror_defer: bool,
) -> Severity {
    if policy == RejectPolicy::NoCheck {
        Severity::Accept
    } else {
        match result {
            SpfResult::Permerror => if permerror_reject {
                Severity::Reject
            } else {
                Severity::Accept
            },
            SpfResult::Temperror => if temperror_defer {
                Severity::Defer
            } else {
                Severity::Accept
            },
            _ => match policy {
                RejectPolicy::Fail => if result is Fail {
                    Severity::Reject
                } else {
                    Severity::Accept
                },
                RejectPolicy::SoftFail => if result is Fail || result is Softfail {
                    Severity::Reject
                } else {
                    Severity::Accept
                },
                RejectPolicy::SpfNotPass => if result is Pass {
                    Severity::Accept
                } else {
                    Severity::Reject
                },
                _ => Severity::Accept,
            },
        }
    }
}

/// The message template configured for `result`.
pub open spec fn template_text(messages: MessageTemplates, result: SpfResult) -> Seq<char> {
    match result {
        SpfResult::Fail(_) => messages.fail@,
        SpfResult::Softfail => messages.softfail@,
        SpfResult::Neutral => messages.neutral@,
        SpfResult::NoRecord => messages.none@,
        SpfResult::Permerror => messages.permerror@,
        SpfResult::Temperror => messages.temperror@,
        SpfResult::Pass => "550 5.7.1 SPF check failed"@,
    }
}

/// The template for `result` with `{result}`, `{sender}`, `{helo}`,
/// `{ip}` and `{recipient}` substituted, in that order.
pub open spec fn rendered_message(
    messages: MessageTemplates,
    result: SpfResult,
    ip: IpAddress,
    sender: Seq<char>,
    helo: Seq<char>,
    recipient: Seq<char>,
) -> Seq<char> {
    replace_all(
        replace_all(
            replace_all(
                replace_all(
                    replace_all(template_text(messages, result), "{result}"@, spf_result_text(result)),
                    "{sender}"@,
                    sender,
                ),
                "{helo}"@,
                helo,
            ),
            "{ip}"@,
            ip_text(ip),
        ),
        "{recipient}"@,
        recipient,
    )
}

pub open spec fn helo_severity(cfg: Config, helo: SpfOutcome) -> Severity {
    severity_of(
        cfg.policy.helo_reject,
        helo.result,
        cfg.policy.permerror_reject,
        cfg.policy.temperror_defer,
    )
}

pub open spec fn mail_from_severity(cfg: Config, mail_from: SpfOutcome) -> Severity {
    severity_of(
        cfg.policy.mail_from_reject,
        mail_from.result,
        cfg.policy.permerror_reject,
        cfg.policy.temperror_defer,
    )
}

/// The decided action: the worse of the two severities, with MAIL FROM's
/// outcome responsible unless HELO's severity is strictly worse; without
/// any severity, a `Received-SPF` header built from the MAIL FROM outcome
/// (or nothing, when headers are off).
pub open spec fn decision(
    cfg: Config,
    helo: SpfOutcome,
    mail_from: SpfOutcome,
    ip: IpAddress,
    sender: Seq<char>,
    helo_name: Seq<char>,
    recipient: Seq<char>,
) -> ActionView {
    let hs = helo_severity(cfg, helo);
    let ms = mail_from_severity(cfg, mail_from);
    let (severity, responsible) = if rank(hs) > rank(ms) {
        (hs, helo)
    } else {
        (ms, mail_from)
    };
    match severity {
        Severity::Reject => ActionView::Reject(
            rendered_message(cfg.messages, responsible.result, ip, sender, helo_name, recipient),
        ),
        Severity::Defer => ActionView::DeferIfPermit(
            rendered_message(cfg.messages, responsible.result, ip, sender, helo_name, recipient),
        ),
        Severity::Accept => match cfg.header.mode {
            HeaderMode::Spf => ActionView::Prepend(
                "Received-SPF: "@ + received_spf_text(
                    mail_from,
                    ip,
                    sender,
                    helo_name,
                    recipient,
                    cfg.header,
                ),
            ),
            HeaderMode::NoHeader => ActionView::Dunno,
        },
    }
}

/// How severe an action is: reject 2, defer 1, anything else 0.
pub open spec fn action_rank(a: ActionView) -> int {
    match a {
        ActionView::Reject(_) => 2,
        ActionView::DeferIfPermit(_) => 1,
        _ => 0,
    }
}

/// Turns the HELO and MAIL FROM SPF outcomes into a single Postfix policy
/// `Action`, per the configured [`RejectPolicy`] for each identity plus the
/// global `permerror_reject`/`temperror_defer` toggles.
///
/// MAIL FROM is the RFC 7208-recommended primary identity: on a tie, or
/// whenever HELO's severity is no worse than MAIL FROM's, MAIL FROM's
/// outcome and message are used. HELO can only *escalate* the response,
/// never downgrade a MAIL FROM reject/defer.
pub fn decide(cfg: &Config, helo: &SpfOutcome, mail_from: &SpfOutcome, ctx: &DecisionContext) -> (r:
    Action)
    ensures
        r@ == decision(*cfg, *helo, *mail_from, ctx.ip, ctx.sender@, ctx.helo@, ctx.recipient@),
{
    let helo_severity = classify_severity(
        cfg.policy.helo_reject,
        &helo.result,
        cfg.policy.permerror_reject,
        cfg.policy.temperror_defer,
    );
    let mail_from_severity = classify_severity(
        cfg.policy.mail_from_reject,
        &mail_from.result,
        cfg.policy.permerror_reject,
        cfg.policy.temperror_defer,
    );
    let (severity, responsible) = if severity_rank(helo_severity) > severity_rank(
        mail_from_severity,
    ) {
        (helo_severity, helo)
    } else {
        (mail_from_severity, mail_from)
    };
    match severity {
        Severity::Reject => Action::Reject(render_message(&cfg.messages, &responsible.result, ctx)),
        Severity::Defer => Action::DeferIfPermit(
            render_message(&cfg.messages, &responsible.result, ctx),
        ),
        Severity::Accept => match cfg.header.mode {
            HeaderMode::Spf => {
                let header = build_received_spf(
                    mail_from,
                    ctx.ip,
                    ctx.sender,
                    ctx.helo,
                    ctx.recipient,
                    &cfg.header,
                );
                let mut text = String::from_str("Received-SPF: ");
                append_str(&mut text, header.as_str());
                Action::Prepend(text)
            },
            HeaderMode::NoHeader => Action::Dunno,
        },
    }
}

fn severity_rank(s: Severity) -> (r: u8)
    ensures
        r as int == rank(s),
{
    match s {
        Severity::Accept => 0,
        Severity::Defer => 1,
        Severity::Reject => 2,
    }
}

/// The reaction that `policy` and the global toggles call for on `result`.
pub fn classify_severity(
    policy: RejectPolicy,
    result: &SpfResult,
    permerror_reject: bool,
    temperror_defer: bool,
) -> (r: Severity)
    ensures
        r == severity_of(policy, *result, permerror_reject, temperror_defer),
{
    if policy == RejectPolicy::NoCheck {
        return Severity::Accept;
    }
    match result {
        SpfResult::Permerror => {
            if permerror_reject {
                Severity::Reject
            } else {
                Severity::Accept
            }
        },
        SpfResult::Temperror => {
            if temperror_defer {
                Severity::Defer
            } else {
                Severity::Accept
            }
        },
        _ => match policy {
            RejectPolicy::Never | RejectPolicy::NoCheck => Severity::Accept,
            RejectPolicy::Fail => {
                if matches!(result, SpfResult::Fail(_)) {
                    Severity::Reject
                } else {
                    Severity::Accept
                }
            },
            RejectPolicy::SoftFail => {
                if matches!(result, SpfResult::Fail(_) | SpfResult::Softfail) {
                    Severity::Reject
                } else {
                    Severity::Accept
                }
            },
            RejectPolicy::SpfNotPass => {
                if matches!(result, SpfResult::Pass) {
                    Severity::Accept
                } else {
                    Severity::Reject
                }
            },
        },
    }
}

/// The message template configured for `result`. A `Pass` result never
/// gets a reject or defer severity, so its generic text is not reached
/// from [`decide`].
pub fn message_template<'a>(messages: &'a MessageTemplates, result: &SpfResult) -> (r: &'a str)
    ensures
        r@ == template_text(*messages, *result),
{
    match result {
        SpfResult::Fail(_) => messages.fail.as_str(),
        SpfResult::Softfail => messages.softfail.as_str(),
        SpfResult::Neutral => messages.neutral.as_str(),
        SpfResult::NoRecord => messages.none.as_str(),
        SpfResult::Permerror => messages.permerror.as_str(),
        SpfResult::Temperror => messages.temperror.as_str(),
        SpfResult::Pass => "550 5.7.1 SPF check failed",
    }
}

/// The message for `result` with its placeholders substituted.
pub fn render_message(messages: &MessageTemplates, result: &SpfResult, ctx: &DecisionContext) -> (r:
    String)
    ensures
        r@ == rendered_message(
            *messages,
            *result,
            ctx.ip,
            ctx.sender@,
            ctx.helo@,
            ctx.recipient@,
        ),
{
    proof {
        reveal_strlit("{result}");
        reveal_strlit("{sender}");
        reveal_strlit("{helo}");
        reveal_strlit("{ip}");
        reveal_strlit("{recipient}");
    }
    let template = chars_of(message_template(messages, result));
    let result_text = result.to_string();
    let s1 = replace_str(template.as_slice(), "{result}", result_text.as_str());
    let s2 = replace_str(s1.as_slice(), "{sender}", ctx.sender);
    let s3 = replace_str(s2.as_slice(), "{helo}", ctx.helo);
    let ip_s = ctx.ip.to_string();
    let s4 = replace_str(s3.as_slice(), "{ip}", ip_s.as_str());
    let s5 = replace_str(s4.as_slice(), "{recipient}", ctx.recipient);
    string_of(s5.as_slice())
}

/// HELO can only escalate the response: the decided action is exactly as
/// severe as the worse of the two identities' severities, so a MAIL FROM
/// reject or defer is never downgraded by a better HELO result.
pub proof fn law_decision_takes_the_worse_severity(
    cfg: Config,
    helo: SpfOutcome,
    mail_from: SpfOutcome,
    ip: IpAddress,
    sender: Seq<char>,
    helo_name: Seq<char>,
    recipient: Seq<char>,
)
    ensures
        action_rank(decision(cfg, helo, mail_from, ip, sender, helo_name, recipient)) == if rank(
            helo_severity(cfg, helo),
        ) > rank(mail_from_severity(cfg, mail_from)) {
            rank(helo_severity(cfg, helo))
        } else {
            rank(mail_from_severity(cfg, mail_from))
        },
        action_rank(decision(cfg, helo, mail_from, ip, sender, helo_name, recipient)) >= rank(
            mail_from_severity(cfg, mail_from),
        ),
{
}

/// MAIL FROM is the primary identity: whenever HELO is no more severe, a
/// reject or defer carries the message rendered for MAIL FROM's result.
pub proof fn law_mail_from_message_wins_ties(
    cfg: Config,
    helo: SpfOutcome,
    mail_from: SpfOutcome,
    ip: IpAddress,
    sender: Seq<char>,
    helo_name: Seq<char>,
    recipient: Seq<char>,
)
    requires
        rank(helo_severity(cfg, helo)) <= rank(mail_from_severity(cfg, mail_from)),
        rank(mail_from_severity(cfg, mail_from)) > 0,
    ensures
        ({
            let message = rendered_message(
                cfg.messages,
                mail_from.result,
                ip,
                sender,
                helo_name,
                recipient,
            );
            match decision(cfg, helo, mail_from, ip, sender, helo_name, recipient) {
                ActionView::Reject(m) => m == message,
                ActionView::DeferIfPermit(m) => m == message,
                _ => false,
            }
        }),
{
}

/// An identity under `NoCheck` never affects the action: with HELO under
/// `NoCheck`, any two HELO outcomes give the same action.
pub proof fn law_no_check_helo_is_ignored(
    cfg: Config,
    helo_a: SpfOutcome,
    helo_b: SpfOutcome,
    mail_from: SpfOutcome,
    ip: IpAddress,
    sender: Seq<char>,
    helo_name: Seq<char>,
    recipient: Seq<char>,
)
    requires
        cfg.policy.helo_reject == RejectPolicy::NoCheck,
    ensures
        decision(cfg, helo_a, mail_from, ip, sender, helo_name, recipient) == decision(
            cfg,
            helo_b,
            mail_from,
            ip,
            sender,
            helo_name,
            recipient,
        ),
{
}

/// With MAIL FROM under `NoCheck`, its result never drives a reject or
/// defer: how severe the action is depends on HELO alone.
pub proof fn law_no_check_mail_from_cannot_reject(
    cfg: Config,
    helo: SpfOutcome,
    mail_from: SpfOutcome,
    ip: IpAddress,
    sender: Seq<char>,
    helo_name: Seq<char>,
    recipient: Seq<char>,
)
    requires
        cfg.policy.mail_from_reject == RejectPolicy::NoCheck,
    ensures
        action_rank(decision(cfg, helo, mail_from, ip, sender, helo_name, recipient)) == rank(
            helo_severity(cfg, helo),
        ),
{
}

/// A `Pass` result never calls for a reject or defer, under any policy.
pub proof fn law_pass_is_never_rejected(
    policy: RejectPolicy,
    permerror_reject: bool,
    temperror_defer: bool,
)
    ensures
        severity_of(policy, SpfResult::Pass, permerror_reject, temperror_defer) == Severity::Accept,
{
}

/// Policies are ordered by strictness: whatever `Fail` rejects, `SoftFail`
/// rejects, and whatever `SoftFail` rejects, `SpfNotPass` rejects.
pub proof fn law_policies_nest(result: SpfResult, permerror_reject: bool, temperror_defer: bool)
    ensures
        severity_of(RejectPolicy::Fail, result, permerror_reject, temperror_defer)
            == Severity::Reject ==> severity_of(
            RejectPolicy::SoftFail,
            result,
            permerror_reject,
            temperror_defer,
        ) == Severity::Reject,
        severity_of(RejectPolicy::SoftFail, result, permerror_reject, temperror_defer)
            == Severity::Reject ==> severity_of(
            RejectPolicy::SpfNotPass,
            result,
            permerror_reject,
            temperror_defer,
        ) == Severity::Reject,
{
}

/// Under `Never`, only the global error toggles can call for a reject or
/// defer.
pub proof fn law_never_reacts_only_to_errors(
    result: SpfResult,
    permerror_reject: bool,
    temperror_defer: bool,
)
    ensures
        severity_of(RejectPolicy::Never, result, permerror_reject, temperror_defer)
            != Severity::Accept ==> (result is Permerror && permerror_reject) || (
        result is Temperror && temperror_defer),
{
}

/// The documented table of the reject policies on the results that they
/// speak of (fail, softfail, neutral, none and pass): `Fail` rejects only
/// a fail; `SoftFail` rejects a fail or a softfail; `SpfNotPass` rejects
/// everything but a pass; `Never` and `NoCheck` reject none of them. None
/// of these results is ever deferred, and whatever is not rejected is
/// accepted.
pub proof fn law_reject_policy_table(
    policy: RejectPolicy,
    result: SpfResult,
    permerror_reject: bool,
    temperror_defer: bool,
)
    requires
        result is Fail || result is Softfail || result is Neutral || result is NoRecord
            || result is Pass,
    ensures
        ({
            let s = severity_of(policy, result, permerror_reject, temperror_defer);
            &&& s == Severity::Reject || s == Severity::Accept
            &&& policy == RejectPolicy::Fail ==> (s == Severity::Reject <==> result is Fail)
            &&& policy == RejectPolicy::SoftFail ==> (s == Severity::Reject <==> (result is Fail
                || result is Softfail))
            &&& policy == RejectPolicy::SpfNotPass ==> (s == Severity::Reject <==> !(result is Pass))
            &&& policy == RejectPolicy::Never ==> s == Severity::Accept
            &&& policy == RejectPolicy::NoCheck ==> s == Severity::Accept
        }),
{
}

/// The error toggles: under every policy but `NoCheck`, a permerror is
/// rejected exactly when `permerror_reject` is set (and accepted
/// otherwise), and a temperror is deferred exactly when `temperror_defer`
/// is set (and accepted otherwise); under `NoCheck` both are accepted.
pub proof fn law_error_toggles(policy: RejectPolicy, permerror_reject: bool, temperror_defer: bool)
    ensures
        policy != RejectPolicy::NoCheck ==> severity_of(
            policy,
            SpfResult::Permerror,
            permerror_reject,
            temperror_defer,
        ) == (if permerror_reject {
            Severity::Reject
        } else {
            Severity::Accept
        }),
        policy != RejectPolicy::NoCheck ==> severity_of(
            policy,
            SpfResult::Temperror,
            permerror_reject,
            temperror_defer,
        ) == (if temperror_defer {
            Severity::Defer
        } else {
            Severity::Accept
        }),
        policy == RejectPolicy::NoCheck ==> severity_of(
            policy,
            SpfResult::Permerror,
            permerror_reject,
            temperror_defer,
        ) == Severity::Accept && severity_of(
            policy,
            SpfResult::Temperror,
            permerror_reject,
            temperror_defer,
        ) == Severity::Accept,
{
}

/// A decision rejects only when one identity's result calls for it under
/// that identity's policy by the documented table: with both results among
/// fail, softfail, neutral, none and pass, the action is a reject exactly
/// when the HELO result is rejected by the HELO policy or the MAIL FROM
/// result by the MAIL FROM policy, and never a defer.
pub proof fn law_decision_rejects_by_the_table(
    cfg: Config,
    helo: SpfOutcome,
    mail_from: SpfOutcome,
    ip: IpAddress,
    sender: Seq<char>,
    helo_name: Seq<char>,
    recipient: Seq<char>,
)
    requires
        !(helo.result is Permerror) && !(helo.result is Temperror),
        !(mail_from.result is Permerror) && !(mail_from.result is Temperror),
    ensures
        ({
            let rejects = |p: RejectPolicy, r: SpfResult|
                match p {
                    RejectPolicy::Fail => r is Fail,
                    RejectPolicy::SoftFail => r is Fail || r is Softfail,
                    RejectPolicy::SpfNotPass => !(r is Pass),
                    _ => false,
                };
            let a = decision(cfg, helo, mail_from, ip, sender, helo_name, recipient);
            &&& !(a is DeferIfPermit)
            &&& (a is Reject) <==> (rejects(cfg.policy.helo_reject, helo.result) || rejects(
                cfg.policy.mail_from_reject,
                mail_from.result,
            ))
        }),
{
    law_reject_policy_table(
        cfg.policy.helo_reject,
        helo.result,
        cfg.policy.permerror_reject,
        cfg.policy.temperror_defer,
    );
    law_reject_policy_table(
        cfg.policy.mail_from_reject,
        mail_from.result,
        cfg.policy.permerror_reject,
        cfg.policy.temperror_defer,
    );
}

} // verus!
