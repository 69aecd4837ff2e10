//! The per-request SPF decision as one Postfix-style mail log line
//! (`key=value, ...`), made safe to hand to syslog.
use vstd::prelude::*;

use crate::net::ip::ip_text;
use crate::net::IpAddress;
use crate::proto::{Action, ActionView};
use crate::spf::outcome::spf_result_text;
use crate::spf::SpfResult;
use crate::text::{append_str, char_is_control, chars_of, is_control, push_char};

verus! {

/// Every control character replaced by a space.
pub open spec fn sanitized(s: Seq<char>) -> Seq<char> {
    s.map_values(|c: char| if is_control(c) { ' ' } else { c })
}

/// Postfix-style status word of an action.
pub open spec fn status_text(a: ActionView) -> Seq<char> {
    match a {
        ActionView::Dunno => "permit"@,
        ActionView::Prepend(_) => "permit"@,
        ActionView::Reject(_) => "reject"@,
        ActionView::DeferIfPermit(_) => "defer"@,
    }
}

/// The parenthesized detail of an action: the header text on permit, or
/// the reject/defer reason.
pub open spec fn detail_text(a: ActionView) -> Option<Seq<char>> {
    match a {
        ActionView::Dunno => None,
        ActionView::Prepend(h) => Some(h),
        ActionView::Reject(r) => Some(r),
        ActionView::DeferIfPermit(r) => Some(r),
    }
}

pub open spec fn opt_str_view(o: Option<&str>) -> Option<Seq<char>> {
    match o {
        Some(s) => Some(s@),
        None => None,
    }
}

/// The log line before sanitizing: the status word and its detail first,
/// then sender, client, HELO name and both SPF results. It carries no
/// queue ID, which Postfix has not assigned yet at the recipient stage.
pub open spec fn raw_log_line(
    client_ip: IpAddress,
    client_name: Option<Seq<char>>,
    helo: Seq<char>,
    sender: Seq<char>,
    helo_result: SpfResult,
    mail_from_result: SpfResult,
    action: ActionView,
) -> Seq<char> {
    let n = match client_name {
        Some(n) => n,
        None => "unknown"@,
    };
    let status = match detail_text(action) {
        Some(d) => "status="@ + status_text(action) + " ("@ + d + ")"@,
        None => "status="@ + status_text(action),
    };
    status + ", from=<"@ + sender + ">, client="@ + n + "["@ + ip_text(client_ip) + "], helo="@
        + helo + ", spf_helo="@ + spf_result_text(helo_result) + ", spf_mailfrom="@
        + spf_result_text(mail_from_result)
}

/// Postfix-style status word plus an optional parenthesized detail (the
/// Received-SPF header text on permit, or the reject/defer reason).
pub fn describe_action(action: &Action) -> (r: (&'static str, Option<&str>))
    ensures
        r.0@ == status_text(action@),
        opt_str_view(r.1) == detail_text(action@),
{
    match action {
        Action::Dunno => ("permit", None),
        Action::Prepend(header) => ("permit", Some(header.as_str())),
        Action::Reject(reason) => ("reject", Some(reason.as_str())),
        Action::DeferIfPermit(reason) => ("defer", Some(reason.as_str())),
    }
}

/// Replaces control characters (notably CR/LF, which could otherwise be
/// used to inject fake additional syslog lines) with spaces.
pub fn sanitize(s: &str) -> (r: String)
    ensures
        r@ == sanitized(s@),
{
    let v = chars_of(s);
    let mut out = String::new();
    let mut i: usize = 0;
    while i < v.len()
        invariant
            v@ == s@,
            i <= v.len(),
            out@ =~= sanitized(s@.subrange(0, i as int)),
        decreases v.len() - i,
    {
        let c = v[i];
        if char_is_control(c) {
            push_char(&mut out, ' ');
        } else {
            push_char(&mut out, c);
        }
        i = i + 1;
    }
    assert(s@.subrange(0, s@.len() as int) =~= s@);
    out
}

/// One request's SPF decision as a mail log line, in a Postfix-log-like
/// `key=value, ...` style, with control characters replaced by spaces.
pub fn evaluated_spf_line(
    client_ip: IpAddress,
    client_name: Option<&str>,
    helo: &str,
    sender: &str,
    helo_result: &SpfResult,
    mail_from_result: &SpfResult,
    action: &Action,
) -> (r: String)
    ensures
        r@ == sanitized(
            raw_log_line(
                client_ip,
                opt_str_view(client_name),
                helo@,
                sender@,
                *helo_result,
                *mail_from_result,
                action@,
            ),
        ),
{
    let client_name = match client_name {
        Some(n) => n,
        None => "unknown",
    };
    let (status, detail) = describe_action(action);
    let mut msg = String::from_str("status=");
    append_str(&mut msg, status);
    if let Some(detail) = detail {
        append_str(&mut msg, " (");
        append_str(&mut msg, detail);
        append_str(&mut msg, ")");
    }
    append_str(&mut msg, ", from=<");
    append_str(&mut msg, sender);
    append_str(&mut msg, ">, client=");
    append_str(&mut msg, client_name);
    append_str(&mut msg, "[");
    let ip_s = client_ip.to_string();
    append_str(&mut msg, ip_s.as_str());
    append_str(&mut msg, "], helo=");
    append_str(&mut msg, helo);
    append_str(&mut msg, ", spf_helo=");
    let h = helo_result.to_string();
    append_str(&mut msg, h.as_str());
    append_str(&mut msg, ", spf_mailfrom=");
    let m = mail_from_result.to_string();
    append_str(&mut msg, m.as_str());
    sanitize(msg.as_str())
}

/// Sanitizing keeps the length, leaves no control character behind, and
/// keeps every other character in place.
pub proof fn law_sanitize_removes_only_control_characters(s: Seq<char>)
    ensures
        sanitized(s).len() == s.len(),
        forall|i: int| 0 <= i < s.len() ==> !is_control(#[trigger] sanitized(s)[i]),
        forall|i: int| 0 <= i < s.len() && !is_control(s[i]) ==> #[trigger] sanitized(s)[i] == s[i],
{
}

/// A sanitized text has no line break left in it.
pub proof fn law_sanitized_is_one_line(s: Seq<char>)
    ensures
        forall|i: int| 0 <= i < s.len() ==> #[trigger] sanitized(s)[i] != '\n' && sanitized(s)[i] != '\r',
{
}

} // verus!
