use vstd::prelude::*;

use super::outcome::{
    law_result_text_begins_with_its_rfc_name, rfc_result_name, error_cause_text, spf_result_text, Identity, SpfOutcome, SpfResultCause,
};
use crate::config::HeaderConfig;
use crate::net::ip::ip_text;
use crate::net::IpAddress;
use crate::text::{starts_with, append_str, chars_of, rfind_char, rsplit_once, string_of_range};

verus! {

/// The receiver named in the header: the `authserv_id` when configured,
/// else the domain of the recipient address, else `UNKNOWN`.
pub open spec fn recipient_domain_text(recipient: Seq<char>, authserv_id: Option<Seq<char>>) -> Seq<
    char,
> {
    match authserv_id {
        Some(id) => id,
        None => match rsplit_once(recipient, '@') {
            Some((_, domain)) => domain,
            None => "UNKNOWN"@,
        },
    }
}

/// The explanatory comment of the header.
pub open spec fn cause_text(outcome: SpfOutcome, mail_from: Seq<char>, ip: IpAddress) -> Seq<char> {
    match outcome.cause {
        Some(SpfResultCause::Match(mechanism)) => "domain of "@ + mail_from + " designates "@ + ip_text(
            ip,
        ) + " as "@ + spf_result_text(outcome.result) + ", matched \""@ + mechanism@ + "\""@,
        Some(SpfResultCause::Error(cause)) => error_cause_text(cause),
        None => "domain of "@ + mail_from + " does not designate a policy for "@ + ip_text(ip),
    }
}

pub open spec fn identity_text(identity: Identity) -> Seq<char> {
    match identity {
        Identity::Helo => "helo"@,
        Identity::MailFrom => "mailfrom"@,
    }
}

pub open spec fn authserv_view(cfg: HeaderConfig) -> Option<Seq<char>> {
    match cfg.authserv_id {
        Some(id) => Some(id@),
        None => None,
    }
}

/// The receiver field of the header.
pub open spec fn receiver_text(recipient: Seq<char>, cfg: HeaderConfig) -> Seq<char> {
    if cfg.hide_receiver {
        "UNKNOWN"@
    } else {
        recipient_domain_text(recipient, authserv_view(cfg))
    }
}

/// A `Received-SPF:` header value (RFC 7208 §9.1) without the field name.
pub open spec fn received_spf_text(
    outcome: SpfOutcome,
    ip: IpAddress,
    mail_from: Seq<char>,
    helo: Seq<char>,
    recipient: Seq<char>,
    cfg: HeaderConfig,
) -> Seq<char> {
    spf_result_text(outcome.result) + " ("@ + cause_text(outcome, mail_from, ip) + ") client-ip="@
        + ip_text(ip) + "; envelope-from=\""@ + mail_from + "\"; helo="@ + helo
        + "; receiver=\""@ + receiver_text(recipient, cfg) + "\"; identity="@ + identity_text(
        outcome.identity,
    ) + ";"@
}

/// Builds a `Received-SPF:` header value per RFC 7208 §9.1, given the
/// context of the check that produced `outcome`.
///
/// The returned string does not include the `Received-SPF: ` field-name
/// prefix; callers (the Postfix `PREPEND` action) supply that separately.
pub fn build_received_spf(
    outcome: &SpfOutcome,
    ip: IpAddress,
    mail_from: &str,
    helo: &str,
    recipient: &str,
    cfg: &HeaderConfig,
) -> (r: String)
    ensures
        r@ == received_spf_text(*outcome, ip, mail_from@, helo@, recipient@, *cfg),
{
    let receiver = if cfg.hide_receiver {
        String::from_str("UNKNOWN")
    } else {
        let id = match &cfg.authserv_id {
            Some(id) => Some(id.as_str()),
            None => None,
        };
        recipient_domain(recipient, id)
    };
    let comment = describe_cause(outcome, mail_from, ip);
    let mut out = outcome.result.to_string();
    append_str(&mut out, " (");
    append_str(&mut out, comment.as_str());
    append_str(&mut out, ") client-ip=");
    let ip_s = ip.to_string();
    append_str(&mut out, ip_s.as_str());
    append_str(&mut out, "; envelope-from=\"");
    append_str(&mut out, mail_from);
    append_str(&mut out, "\"; helo=");
    append_str(&mut out, helo);
    append_str(&mut out, "; receiver=\"");
    append_str(&mut out, receiver.as_str());
    append_str(&mut out, "\"; identity=");
    match outcome.identity {
        Identity::Helo => append_str(&mut out, "helo"),
        Identity::MailFrom => append_str(&mut out, "mailfrom"),
    }
    append_str(&mut out, ";");
    assert(out@ =~= received_spf_text(*outcome, ip, mail_from@, helo@, recipient@, *cfg));
    out
}

/// The receiver: `authserv_id` if given, else the recipient's domain,
/// else `UNKNOWN`.
pub fn recipient_domain(recipient: &str, authserv_id: Option<&str>) -> (r: String)
    ensures
        r@ == recipient_domain_text(
            recipient@,
            match authserv_id {
                Some(id) => Some(id@),
                None => None,
            },
        ),
{
    if let Some(id) = authserv_id {
        return String::from_str(id);
    }
    let v = chars_of(recipient);
    match rfind_char(v.as_slice(), '@') {
        Some(at) => string_of_range(v.as_slice(), at + 1, v.len()),
        None => String::from_str("UNKNOWN"),
    }
}

/// The comment explaining how the result came about.
pub fn describe_cause(outcome: &SpfOutcome, mail_from: &str, ip: IpAddress) -> (r: String)
    ensures
        r@ == cause_text(*outcome, mail_from@, ip),
{
    let ip_s = ip.to_string();
    match &outcome.cause {
        Some(SpfResultCause::Match(mechanism)) => {
            let mut out = String::from_str("domain of ");
            append_str(&mut out, mail_from);
            append_str(&mut out, " designates ");
            append_str(&mut out, ip_s.as_str());
            append_str(&mut out, " as ");
            let res = outcome.result.to_string();
            append_str(&mut out, res.as_str());
            append_str(&mut out, ", matched \"");
            append_str(&mut out, mechanism.as_str());
            append_str(&mut out, "\"");
            out
        },
        Some(SpfResultCause::Error(cause)) => cause.to_string(),
        None => {
            let mut out = String::from_str("domain of ");
            append_str(&mut out, mail_from);
            append_str(&mut out, " does not designate a policy for ");
            append_str(&mut out, ip_s.as_str());
            out
        },
    }
}

/// A `Received-SPF` header value begins with the RFC 7208 name of the
/// result followed by a space (RFC 7208 section 9.1).
pub proof fn law_header_begins_with_the_result_name(
    outcome: SpfOutcome,
    ip: IpAddress,
    mail_from: Seq<char>,
    helo: Seq<char>,
    recipient: Seq<char>,
    cfg: HeaderConfig,
)
    ensures
        starts_with(
            received_spf_text(outcome, ip, mail_from, helo, recipient, cfg),
            rfc_result_name(outcome.result) + seq![' '],
        ),
{
    law_result_text_begins_with_its_rfc_name(outcome.result);
    reveal_strlit(" (");
    let name = rfc_result_name(outcome.result);
    let rt = spf_result_text(outcome.result);
    let h = received_spf_text(outcome, ip, mail_from, helo, recipient, cfg);
    let k = name.len() as int + 1;
    assert(h.take(rt.len() as int) =~= rt);
    if rt == name {
        assert(h[name.len() as int] == ' ');
    } else {
        assert(rt.take(k) == name + seq![' ']);
    }
    assert(h.take(k) =~= name + seq![' ']);
}

} // verus!
