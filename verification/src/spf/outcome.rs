//! The result of one SPF check, as plain values the policy logic reads.
use vstd::prelude::*;

use crate::text::{append_str, index_of, lemma_index_of_from, starts_with};

verus! {

/// Which SMTP identity an [`SpfOutcome`] was computed for.
#[derive(Debug, Clone, Copy, PartialEq, Eq, Structural)]
pub enum Identity {
    Helo,
    MailFrom,
}

/// The explanation attached to a `fail` result: none, or the text that the
/// domain's `exp=` modifier supplied.
#[derive(Debug, Clone, PartialEq, Eq, Default)]
pub enum ExplanationString {
    #[default]
    Default,
    External(String),
}

/// An SPF result (RFC 7208 §2.6).
#[derive(Debug, Clone, PartialEq, Eq)]
pub enum SpfResult {
    NoRecord,
    Neutral,
    Pass,
    Fail(ExplanationString),
    Softfail,
    Temperror,
    Permerror,
}

/// Why an error result came about.
#[derive(Debug, Clone, Copy, PartialEq, Eq, Structural)]
pub enum ErrorCause {
    Timeout,
    Dns,
    LookupLimitExceeded,
    VoidLookupLimitExceeded,
    NoSpfRecord,
    MultipleSpfRecords,
    InvalidSpfRecordSyntax,
    InvalidTargetDomain,
}

/// What decided an SPF result: the mechanism that matched (as SPF text),
/// or the error that ended evaluation.
#[derive(Debug, Clone, PartialEq, Eq)]
pub enum SpfResultCause {
    Match(String),
    Error(ErrorCause),
}

/// The result of one SPF check (HELO or MAIL FROM).
#[derive(Debug, Clone)]
pub struct SpfOutcome {
    pub identity: Identity,
    pub result: SpfResult,
    pub cause: Option<SpfResultCause>,
}

/// The text of an explanation (empty for the default one).
pub open spec fn explanation_text(e: ExplanationString) -> Seq<char> {
    match e {
        ExplanationString::Default => seq![],
        ExplanationString::External(s) => s@,
    }
}

/// An SPF result written out: `pass`, `fail`, `fail (explanation)`, ...
pub open spec fn spf_result_text(r: SpfResult) -> Seq<char> {
    match r {
        SpfResult::NoRecord => "none"@,
        SpfResult::Neutral => "neutral"@,
        SpfResult::Pass => "pass"@,
        SpfResult::Fail(e) => if explanation_text(e).len() == 0 {
            "fail"@
        } else {
            "fail ("@ + explanation_text(e) + ")"@
        },
        SpfResult::Softfail => "softfail"@,
        SpfResult::Temperror => "temperror"@,
        SpfResult::Permerror => "permerror"@,
    }
}

/// An error cause written out.
pub open spec fn error_cause_text(c: ErrorCause) -> Seq<char> {
    match c {
        ErrorCause::Timeout => "DNS lookup timed out"@,
        ErrorCause::Dns => "DNS lookup failed"@,
        ErrorCause::LookupLimitExceeded => "lookup limit exceeded"@,
        ErrorCause::VoidLookupLimitExceeded => "void lookup limit exceeded"@,
        ErrorCause::NoSpfRecord => "no SPF record found at included domain"@,
        ErrorCause::MultipleSpfRecords => "more than one SPF record found"@,
        ErrorCause::InvalidSpfRecordSyntax => "invalid SPF record found"@,
        ErrorCause::InvalidTargetDomain => "invalid included domain name found"@,
    }
}

impl SpfResult {
    /// The result written out, e.g. `softfail`.
    pub fn to_string(&self) -> (r: String)
        ensures
            r@ == spf_result_text(*self),
    {
        match self {
            SpfResult::NoRecord => String::from_str("none"),
            SpfResult::Neutral => String::from_str("neutral"),
            SpfResult::Pass => String::from_str("pass"),
            SpfResult::Fail(e) => match e {
                ExplanationString::Default => String::from_str("fail"),
                ExplanationString::External(s) => {
                    if s.as_str().unicode_len() == 0 {
                        String::from_str("fail")
                    } else {
                        let mut out = String::from_str("fail (");
                        append_str(&mut out, s.as_str());
                        append_str(&mut out, ")");
                        out
                    }
                },
            },
            SpfResult::Softfail => String::from_str("softfail"),
            SpfResult::Temperror => String::from_str("temperror"),
            SpfResult::Permerror => String::from_str("permerror"),
        }
    }
}

impl ErrorCause {
    /// The cause written out, e.g. `DNS lookup timed out`.
    pub fn to_string(&self) -> (r: String)
        ensures
            r@ == error_cause_text(*self),
    {
        match self {
            ErrorCause::Timeout => String::from_str("DNS lookup timed out"),
            ErrorCause::Dns => String::from_str("DNS lookup failed"),
            ErrorCause::LookupLimitExceeded => String::from_str("lookup limit exceeded"),
            ErrorCause::VoidLookupLimitExceeded => String::from_str("void lookup limit exceeded"),
            ErrorCause::NoSpfRecord => String::from_str("no SPF record found at included domain"),
            ErrorCause::MultipleSpfRecords => String::from_str("more than one SPF record found"),
            ErrorCause::InvalidSpfRecordSyntax => String::from_str("invalid SPF record found"),
            ErrorCause::InvalidTargetDomain => String::from_str(
                "invalid included domain name found",
            ),
        }
    }
}

impl SpfOutcome {
    /// A `permerror` outcome with no cause, as given to an identity that is
    /// no valid domain or address.
    pub fn permerror(identity: Identity) -> (r: SpfOutcome)
        ensures
            r.identity == identity,
            r.result == SpfResult::Permerror,
            r.cause is None,
    {
        SpfOutcome { identity, result: SpfResult::Permerror, cause: None }
    }
}

/// The name that RFC 7208 (section 2.6) gives a result.
pub open spec fn rfc_result_name(r: SpfResult) -> Seq<char> {
    match r {
        SpfResult::NoRecord => "none"@,
        SpfResult::Neutral => "neutral"@,
        SpfResult::Pass => "pass"@,
        SpfResult::Fail(_) => "fail"@,
        SpfResult::Softfail => "softfail"@,
        SpfResult::Temperror => "temperror"@,
        SpfResult::Permerror => "permerror"@,
    }
}

/// The first word of a text: everything before its first space.
pub open spec fn first_word(t: Seq<char>) -> Seq<char> {
    match index_of(t, ' ') {
        Some(i) => t.take(i),
        None => t,
    }
}

/// A text without a space is its own first word.
proof fn lemma_first_word_whole(t: Seq<char>)
    requires
        forall|j: int| 0 <= j < t.len() ==> t[j] != ' ',
    ensures
        first_word(t) == t,
{
    lemma_index_of_from(t, ' ', 0);
}

/// A word without a space, then a space, then anything: the word comes
/// first.
proof fn lemma_first_word_before_space(w: Seq<char>, rest: Seq<char>)
    requires
        forall|j: int| 0 <= j < w.len() ==> w[j] != ' ',
    ensures
        first_word(w + seq![' '] + rest) == w,
{
    let t = w + seq![' '] + rest;
    lemma_index_of_from(t, ' ', 0);
    assert(t[w.len() as int] == ' ');
    assert(t.take(w.len() as int) =~= w);
}

/// The names of the results, spelled out.
proof fn lemma_rfc_names()
    ensures
        "none"@ =~= seq!['n', 'o', 'n', 'e'],
        "neutral"@ =~= seq!['n', 'e', 'u', 't', 'r', 'a', 'l'],
        "pass"@ =~= seq!['p', 'a', 's', 's'],
        "fail"@ =~= seq!['f', 'a', 'i', 'l'],
        "fail ("@ =~= seq!['f', 'a', 'i', 'l', ' ', '('],
        "softfail"@ =~= seq!['s', 'o', 'f', 't', 'f', 'a', 'i', 'l'],
        "temperror"@ =~= seq!['t', 'e', 'm', 'p', 'e', 'r', 'r', 'o', 'r'],
        "permerror"@ =~= seq!['p', 'e', 'r', 'm', 'e', 'r', 'r', 'o', 'r'],
{
    reveal_strlit("none");
    reveal_strlit("neutral");
    reveal_strlit("pass");
    reveal_strlit("fail");
    reveal_strlit("fail (");
    reveal_strlit("softfail");
    reveal_strlit("temperror");
    reveal_strlit("permerror");
}

/// A result is written out as its RFC 7208 name, alone or followed by a
/// space and an explanation, so the first word of the text is that name.
pub proof fn law_result_text_begins_with_its_rfc_name(r: SpfResult)
    ensures
        first_word(spf_result_text(r)) == rfc_result_name(r),
        spf_result_text(r) == rfc_result_name(r) || starts_with(
            spf_result_text(r),
            rfc_result_name(r) + seq![' '],
        ),
{
    lemma_rfc_names();
    let name = rfc_result_name(r);
    let t = spf_result_text(r);
    if t == name {
        lemma_first_word_whole(name);
    } else {
        let e = explanation_text(r->Fail_0);
        assert(t =~= name + seq![' '] + (seq!['('] + e + ")"@));
        lemma_first_word_before_space(name, seq!['('] + e + ")"@);
        assert(t.take(name.len() as int + 1) =~= name + seq![' ']);
    }
}

/// Results of different kinds are never written with the same first word:
/// only two `fail` results (with whatever explanations) share one.
pub proof fn law_result_words_are_distinct(r1: SpfResult, r2: SpfResult)
    requires
        !(r1 is Fail && r2 is Fail),
        r1 != r2,
    ensures
        first_word(spf_result_text(r1)) != first_word(spf_result_text(r2)),
{
    law_result_text_begins_with_its_rfc_name(r1);
    law_result_text_begins_with_its_rfc_name(r2);
    lemma_rfc_names();
    let (a, b) = (rfc_result_name(r1), rfc_result_name(r2));
    if a == b {
        assert(a.len() == b.len());
        assert(a[0] == b[0]);
        assert(a[1] == b[1]);
        assert(a[3] == b[3]);
    }
}

} // verus!
