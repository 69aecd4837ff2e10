//! What the policy server does with one request before SPF evaluation:
//! exempt connections are answered at once, the others are evaluated for
//! the sender that remains after SRS unwrapping.
use vstd::prelude::*;

use crate::config::Config;
use crate::net::cidr_set::any_contains;
use crate::net::parse::ip_parse;
use crate::net::IpAddress;
use crate::proto::request::opt_view;
use crate::proto::PolicyRequest;
use crate::srs::{clock_reading, is_day_of, current_days_since_epoch, srs_outcome, try_unwrap_at, SrsUnwrap, SrsUnwrapView};
use crate::text::{chars_of, rfind_char, rsplit_once, string_of, sub_chars};
use crate::whitelist::{match_reason, opt_text, Whitelist, WhitelistReason, WhitelistView};

verus! {

/// The configuration key of the whitelist entries that exempted a request.
pub open spec fn reason_text(r: WhitelistReason) -> Seq<char> {
    match r {
        WhitelistReason::Ip => "whitelist.ips"@,
        WhitelistReason::Helo => "whitelist.helo_names"@,
        WhitelistReason::Domain => "whitelist.domains"@,
        WhitelistReason::DomainPtr => "whitelist.domains_ptr"@,
    }
}

/// The domain of a sender: what follows its last `@`.
pub open spec fn sender_domain(sender: Seq<char>) -> Option<Seq<char>> {
    match rsplit_once(sender, '@') {
        Some((_, d)) => Some(d),
        None => None,
    }
}

/// Why a request bypasses SPF evaluation, if it does: a client in
/// `skip.addresses` or `relay.trusted_relays`, a SASL-authenticated client
/// where those are exempt, or a whitelist match.
pub open spec fn skip_reason(
    c: Config,
    wl: WhitelistView,
    req: PolicyRequest,
    ip: IpAddress,
    helo: Seq<char>,
    sender: Seq<char>,
) -> Option<Seq<char>> {
    if any_contains(c.skip.addresses@, ip) {
        Some("client_address matches skip.addresses"@)
    } else if any_contains(c.relay.trusted_relays@, ip) {
        Some("client_address matches relay.trusted_relays"@)
    } else if c.relay.exempt_sasl_authenticated && (req.sasl_username matches Some(u) && u@.len()
        > 0) {
        Some("sasl_username present and relay.exempt_sasl_authenticated is set"@)
    } else {
        match match_reason(
            wl,
            ip,
            helo,
            sender_domain(sender),
            opt_view(req.reverse_client_name),
        ) {
            Some(r) => Some(reason_text(r)),
            None => None,
        }
    }
}

fn reason_str(r: WhitelistReason) -> (s: &'static str)
    ensures
        s@ == reason_text(r),
{
    match r {
        WhitelistReason::Ip => "whitelist.ips",
        WhitelistReason::Helo => "whitelist.helo_names",
        WhitelistReason::Domain => "whitelist.domains",
        WhitelistReason::DomainPtr => "whitelist.domains_ptr",
    }
}

/// Why a request bypasses SPF evaluation, if it does (see [`skip_reason`]).
pub fn should_skip(
    config: &Config,
    whitelist: &Whitelist,
    req: &PolicyRequest,
    client_ip: IpAddress,
    helo: &str,
    sender: &str,
) -> (r: Option<&'static str>)
    ensures
        opt_text(r) == skip_reason(*config, whitelist@, *req, client_ip, helo@, sender@),
{
    if config.skip.addresses.contains(client_ip) {
        return Some("client_address matches skip.addresses");
    }
    if config.relay.trusted_relays.contains(client_ip) {
        return Some("client_address matches relay.trusted_relays");
    }
    if config.relay.exempt_sasl_authenticated {
        match &req.sasl_username {
            Some(u) => {
                if u.unicode_len() > 0 {
                    return Some("sasl_username present and relay.exempt_sasl_authenticated is set");
                }
            },
            None => {},
        }
    }
    let chars = chars_of(sender);
    let domain: Option<String> = match rfind_char(chars.as_slice(), '@') {
        Some(i) => {
            let d = string_of(sub_chars(chars.as_slice(), i + 1, chars.len()).as_slice());
            assert(d@ =~= sender@.skip(i + 1));
            Some(d)
        },
        None => None,
    };
    let mail_from_domain: Option<&str> = match &domain {
        Some(d) => Some(d.as_str()),
        None => None,
    };
    assert(opt_text(mail_from_domain) == sender_domain(sender@));
    let reverse: Option<&str> = match &req.reverse_client_name {
        Some(n) => Some(n.as_str()),
        None => None,
    };
    assert(opt_text(reverse) == opt_view(req.reverse_client_name));
    match whitelist.matches(client_ip, helo, mail_from_domain, reverse) {
        Some(reason) => Some(reason_str(reason)),
        None => None,
    }
}

/// What to do with a request before any SPF evaluation.
#[derive(Debug)]
pub enum RequestPlan {
    /// Answer `dunno` without evaluating SPF: `reason` says why the request
    /// is exempt; `None` where it lacks a HELO name, a sender or a valid
    /// client address.
    Dunno { reason: Option<&'static str> },
    /// Evaluate SPF for both identities of this client, HELO name, sender
    /// (SRS-unwrapped where that verified) and recipient (empty when the
    /// request names none).
    Evaluate { client_ip: IpAddress, helo: String, sender: String, recipient: String },
}

/// `RequestPlan` with its texts as characters.
pub enum RequestPlanView {
    Dunno(Option<Seq<char>>),
    Evaluate(IpAddress, Seq<char>, Seq<char>, Seq<char>),
}

impl View for RequestPlan {
    type V = RequestPlanView;

    open spec fn view(&self) -> RequestPlanView {
        match self {
            RequestPlan::Dunno { reason } => RequestPlanView::Dunno(opt_text(*reason)),
            RequestPlan::Evaluate { client_ip, helo, sender, recipient } => {
                RequestPlanView::Evaluate(*client_ip, helo@, sender@, recipient@)
            },
        }
    }
}

/// The plan for a request on day `today` (for SRS timestamps; `None` when
/// the day is unknown).
pub open spec fn request_plan(
    c: Config,
    wl: WhitelistView,
    req: PolicyRequest,
    today: Option<nat>,
) -> RequestPlanView {
    let ip = match req.client_address {
        Some(raw) => ip_parse(raw@),
        None => None,
    };
    match (req.helo_name, req.sender, ip) {
        (Some(h), Some(s), Some(ip)) => {
            let recipient = match req.recipient {
                Some(r) => r@,
                None => Seq::<char>::empty(),
            };
            match skip_reason(c, wl, req, ip, h@, s@) {
                Some(reason) => RequestPlanView::Dunno(Some(reason)),
                None => {
                    let sender = match srs_outcome(s@, c.srs, today) {
                        SrsUnwrapView::Valid(original) => original,
                        _ => s@,
                    };
                    RequestPlanView::Evaluate(ip, h@, sender, recipient)
                },
            }
        },
        _ => RequestPlanView::Dunno(None),
    }
}

/// The plan for a request on day `today` (days since the Unix epoch;
/// `None` when the day is unknown).
pub fn plan_request_at(config: &Config, whitelist: &Whitelist, req: &PolicyRequest, today: Option<u64>) -> (r: RequestPlan)
    ensures
        r@ == request_plan(
            *config,
            whitelist@,
            *req,
            match today {
                Some(t) => Some(t as nat),
                None => None,
            },
        ),
{
    let helo = match &req.helo_name {
        Some(h) => h,
        None => return RequestPlan::Dunno { reason: None },
    };
    let sender = match &req.sender {
        Some(s) => s,
        None => return RequestPlan::Dunno { reason: None },
    };
    let client_ip = match req.client_ip() {
        Ok(ip) => ip,
        Err(_) => return RequestPlan::Dunno { reason: None },
    };
    let recipient = match &req.recipient {
        Some(r) => r.clone(),
        None => String::new(),
    };
    match should_skip(config, whitelist, req, client_ip, helo.as_str(), sender.as_str()) {
        Some(reason) => {
            return RequestPlan::Dunno { reason: Some(reason) };
        },
        None => {},
    }
    let effective = match try_unwrap_at(sender.as_str(), &config.srs, today) {
        SrsUnwrap::Valid { original_sender } => original_sender,
        _ => sender.clone(),
    };
    RequestPlan::Evaluate { client_ip, helo: helo.clone(), sender: effective, recipient }
}

/// The plan for a request today by the system clock: whatever the clock
/// reads, it is the plan of [`plan_request_at`] for some day (or for an
/// unknown day).
pub fn plan_request(config: &Config, whitelist: &Whitelist, req: &PolicyRequest) -> (r: RequestPlan)
    ensures
        exists|today: Option<nat>| r@ == #[trigger] request_plan(*config, whitelist@, *req, today),
        exists|secs: Option<u64>, today: Option<nat>|
            #[trigger] clock_reading(secs) && is_day_of(secs, today) && r@ == #[trigger] request_plan(
                *config,
                whitelist@,
                *req,
                today,
            ),
{
    let today = current_days_since_epoch();
    let r = plan_request_at(config, whitelist, req, today);
    let ghost t: Option<nat> = match today {
        Some(t) => Some(t as nat),
        None => None,
    };
    assert(r@ == request_plan(*config, whitelist@, *req, t));
    proof {
        let secs = choose|secs: Option<u64>| #[trigger] clock_reading(secs) && is_day_of(secs, t);
        assert(clock_reading(secs) && is_day_of(secs, t) && r@ == request_plan(
            *config,
            whitelist@,
            *req,
            t,
        ));
    }
    r
}

/// A request from a client in `skip.addresses` is never evaluated.
pub proof fn law_skip_addresses_bypass_evaluation(
    c: Config,
    wl: WhitelistView,
    req: PolicyRequest,
    today: Option<nat>,
)
    requires
        req.helo_name is Some,
        req.sender is Some,
        req.client_address matches Some(raw) && (ip_parse(raw@) matches Some(ip) && any_contains(
            c.skip.addresses@,
            ip,
        )),
    ensures
        request_plan(c, wl, req, today) is Dunno,
{
}

/// SPF is evaluated for a sender other than the one received only when
/// SRS unwrapping verified it, and then for the unwrapped sender.
pub proof fn law_only_verified_rewrites_change_the_sender(
    c: Config,
    wl: WhitelistView,
    req: PolicyRequest,
    today: Option<nat>,
)
    requires
        req.sender is Some,
    ensures
        request_plan(c, wl, req, today) matches RequestPlanView::Evaluate(_, _, sender, _) ==> (
        sender == req.sender->0@ || srs_outcome(req.sender->0@, c.srs, today) == SrsUnwrapView::Valid(
            sender,
        )),
{
}

} // verus!
