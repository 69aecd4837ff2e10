//! Which identity an SPF check evaluates: the HELO name as a domain, or the
//! MAIL FROM address, where a null sender stands for `postmaster` at the
//! HELO domain (RFC 7208 §2.4).
use vstd::prelude::*;

use viaspf::{DomainName, Sender};

verus! {

#[verifier::external_type_specification]
#[verifier::external_body]
pub struct ExSender(viaspf::Sender);

#[verifier::external_type_specification]
#[verifier::external_body]
pub struct ExDomainName(viaspf::DomainName);

/// Whether viaspf's `Sender::from_domain` accepts `s`.
pub uninterp spec fn sender_domain_valid(s: Seq<char>) -> bool;

/// Whether viaspf's `Sender::from_address` accepts `s`.
pub uninterp spec fn sender_address_valid(s: Seq<char>) -> bool;

/// Whether viaspf's `DomainName::new` accepts `s`.
pub uninterp spec fn domain_name_valid(s: Seq<char>) -> bool;

/// viaspf's `Sender::from_domain`: present exactly when the parser accepts
/// `s`, which it never does for a text holding `@`; the sender comes with
/// the text it was built from. The sender itself is opaque here.
#[verifier::external_body]
fn sender_from_domain(s: &str) -> (r: Option<(Sender, String)>)
    ensures
        r is Some <==> sender_domain_valid(s@),
        r is Some ==> !s@.contains('@'),
        r matches Some((_, t)) ==> t@ == s@,
{
    match Sender::from_domain(s) {
        Ok(sender) => Some((sender, s.to_string())),
        Err(_) => None,
    }
}

/// viaspf's `Sender::from_address`: present exactly when the parser
/// accepts `s`, which it never does for a text without `@`; the sender
/// comes with the text it was built from. The sender itself is opaque
/// here.
#[verifier::external_body]
fn sender_from_address(s: &str) -> (r: Option<(Sender, String)>)
    ensures
        r is Some <==> sender_address_valid(s@),
        r is Some ==> s@.contains('@'),
        r matches Some((_, t)) ==> t@ == s@,
{
    match Sender::from_address(s) {
        Ok(sender) => Some((sender, s.to_string())),
        Err(_) => None,
    }
}

/// viaspf's `DomainName::new`: present exactly when the parser accepts `s`.
#[verifier::external_body]
fn domain_name(s: &str) -> (r: Option<DomainName>)
    ensures
        r is Some <==> domain_name_valid(s@),
{
    match DomainName::new(s) {
        Ok(name) => Some(name),
        Err(_) => None,
    }
}

/// A copy of the domain part of a sender (viaspf's `Sender::domain`); the
/// domain itself is opaque here.
#[verifier::external_body]
fn sender_domain(sender: &Sender) -> (r: DomainName) {
    sender.domain().clone()
}

/// Whether `sender` (with its text `t`) is what viaspf's
/// `Sender::from_domain` builds from `s`.
pub closed spec fn is_sender_from_domain(s: &str, sender: Sender, t: String) -> bool {
    call_ensures(sender_from_domain, (s,), Some((sender, t)))
}

/// Whether `sender` (with its text `t`) is what viaspf's
/// `Sender::from_address` builds from `s`.
pub closed spec fn is_sender_from_address(s: &str, sender: Sender, t: String) -> bool {
    call_ensures(sender_from_address, (s,), Some((sender, t)))
}

/// Whether `d` is what viaspf's `DomainName::new` gives for `s`.
pub closed spec fn is_domain_name_of(s: &str, d: Option<DomainName>) -> bool {
    call_ensures(domain_name, (s,), d)
}

/// Whether `d` is the domain part of `sender` (viaspf's `Sender::domain`).
pub closed spec fn is_domain_of_sender(sender: &Sender, d: DomainName) -> bool {
    call_ensures(sender_domain, (sender,), d)
}

/// The identity of a HELO check: the HELO name as a sender domain, the
/// text that sender was built from, and that same domain as the HELO
/// domain; `None` where the name is no valid domain (the check is then a
/// `permerror`).
pub fn helo_identity(helo: &str) -> (r: Option<(Sender, String, DomainName)>)
    ensures
        r is Some <==> sender_domain_valid(helo@),
        r matches Some((_, t, _)) ==> t@ == helo@,
        r matches Some((s, t, d)) ==> is_sender_from_domain(helo, s, t) && is_domain_of_sender(&s, d),
{
    match sender_from_domain(helo) {
        Some((sender, text)) => {
            let domain = sender_domain(&sender);
            Some((sender, text, domain))
        },
        None => None,
    }
}

/// The sender checked for a MAIL FROM identity: the address, or for a null
/// sender (empty text) the HELO name as a domain.
pub open spec fn mail_from_sender_valid(mail_from: Seq<char>, helo: Seq<char>) -> bool {
    if mail_from.len() == 0 {
        sender_domain_valid(helo)
    } else {
        sender_address_valid(mail_from)
    }
}

/// The text a MAIL FROM check builds its sender from: the address, or for
/// a null sender the HELO name.
pub open spec fn mail_from_sender_text(mail_from: Seq<char>, helo: Seq<char>) -> Seq<char> {
    if mail_from.len() == 0 {
        helo
    } else {
        mail_from
    }
}

/// The identity of a MAIL FROM check: the sender (see
/// [`mail_from_sender_valid`]), the text it was built from (see
/// [`mail_from_sender_text`]) and the HELO name as a domain where it is
/// one; `None` where the sender is invalid (the check is then a
/// `permerror`).
pub fn mail_from_identity(mail_from: &str, helo: &str) -> (r: Option<(Sender, String, Option<DomainName>)>)
    ensures
        r is Some <==> mail_from_sender_valid(mail_from@, helo@),
        r matches Some((_, t, _)) ==> t@ == mail_from_sender_text(mail_from@, helo@),
        r matches Some((_, _, d)) ==> (d is Some <==> domain_name_valid(helo@)),
        r matches Some((s, t, d)) ==> is_domain_name_of(helo, d) && (if mail_from@.len() == 0 {
            is_sender_from_domain(helo, s, t)
        } else {
            is_sender_from_address(mail_from, s, t)
        }),
{
    let sender = if mail_from.unicode_len() == 0 {
        sender_from_domain(helo)
    } else {
        sender_from_address(mail_from)
    };
    match sender {
        Some((s, text)) => Some((s, text, domain_name(helo))),
        None => None,
    }
}

} // verus!
