//! Checks that a parsed configuration can be served: listeners, SRS
//! secrets, forced SPF records and message templates.
use vstd::prelude::*;

use super::model::{
    default_fail_text, default_neutral_text, default_none_text, default_permerror_text,
    default_softfail_text, default_temperror_text, Config, MessageTemplates,
};
use crate::text::{starts_with, chars_eq_str, chars_of, find_char_from, index_of, lemma_index_of_from, lemma_index_of_skip, string_of, sub_chars};

verus! {

#[verifier::external_type_specification]
#[verifier::external_body]
pub struct ExTomlError(toml::de::Error);

#[verifier::external_type_specification]
#[verifier::external_body]
pub struct ExSpfParseError(viaspf::record::ParseError);

/// Why a configuration could not be loaded.
#[derive(Debug)]
pub enum ConfigError {
    /// The file could not be read.
    Read { path: String, source: std::io::Error },
    /// The file is no valid configuration TOML.
    Parse { path: String, source: toml::de::Error },
    /// `srs.enabled` is set but `srs.secrets` is empty.
    SrsEnabledWithoutSecrets,
    /// A forced SPF record that is no SPF record.
    InvalidOverrideRecord { domain: String, record: String, source: viaspf::record::ParseError },
    /// `server.listen` is empty.
    NoListenAddresses,
    /// A message template names a placeholder that is never substituted.
    UnknownMessagePlaceholder { name: String, placeholder: String },
}

/// `ConfigError` without its sources.
pub enum ConfigErrorView {
    Read(Seq<char>),
    Parse(Seq<char>),
    SrsEnabledWithoutSecrets,
    InvalidOverrideRecord(Seq<char>, Seq<char>),
    NoListenAddresses,
    UnknownMessagePlaceholder(Seq<char>, Seq<char>),
}

impl View for ConfigError {
    type V = ConfigErrorView;

    open spec fn view(&self) -> ConfigErrorView {
        match self {
            ConfigError::Read { path, .. } => ConfigErrorView::Read(path@),
            ConfigError::Parse { path, .. } => ConfigErrorView::Parse(path@),
            ConfigError::SrsEnabledWithoutSecrets => ConfigErrorView::SrsEnabledWithoutSecrets,
            ConfigError::InvalidOverrideRecord { domain, record, .. } => {
                ConfigErrorView::InvalidOverrideRecord(domain@, record@)
            },
            ConfigError::NoListenAddresses => ConfigErrorView::NoListenAddresses,
            ConfigError::UnknownMessagePlaceholder { name, placeholder } => {
                ConfigErrorView::UnknownMessagePlaceholder(name@, placeholder@)
            },
        }
    }
}

/// Whether viaspf's record parser accepts `record` as an SPF record.
pub uninterp spec fn spf_record_valid(record: Seq<char>) -> bool;

/// Whether `e` is the error that viaspf's record parser gives for a text
/// that reads `record`.
pub closed spec fn is_record_error(record: Seq<char>, e: viaspf::record::ParseError) -> bool {
    exists|t: &str| t@ == record && #[trigger] call_ensures(parse_spf_record, (t,), Err(e))
}

/// Parses `record` with viaspf's `SpfRecord` parser (`FromStr`), keeping
/// only whether it was accepted; which texts it accepts is only named.
#[verifier::external_body]
fn parse_spf_record(record: &str) -> (r: Result<(), viaspf::record::ParseError>)
    ensures
        r is Ok <==> spf_record_valid(record@),
{
    match record.parse::<viaspf::record::SpfRecord>() {
        Ok(_) => Ok(()),
        Err(e) => Err(e),
    }
}

/// The placeholders that message templates may use.
pub open spec fn known_placeholder(p: Seq<char>) -> bool {
    p == "result"@ || p == "sender"@ || p == "helo"@ || p == "ip"@ || p == "recipient"@
}

/// The first `{...}` of `t`, scanning left to right, whose name is no known
/// placeholder; a `{` without a closing `}` ends the scan.
pub open spec fn first_unknown_placeholder(t: Seq<char>) -> Option<Seq<char>>
    decreases t.len(),
{
    match index_of(t, '{') {
        None => None,
        Some(o) => {
            proof {
                lemma_index_of_from(t, '{', 0);
            }
            let after = t.skip(o + 1);
            match index_of(after, '}') {
                None => None,
                Some(c) => {
                    proof {
                        lemma_index_of_from(after, '}', 0);
                    }
                    let name = after.take(c);
                    if !known_placeholder(name) {
                        Some(name)
                    } else {
                        first_unknown_placeholder(after.skip(c + 1))
                    }
                },
            }
        },
    }
}

/// The error for the template `name` with text `t`, if it has one.
pub open spec fn template_error(name: Seq<char>, t: Seq<char>) -> Option<ConfigErrorView> {
    match first_unknown_placeholder(t) {
        Some(p) => Some(ConfigErrorView::UnknownMessagePlaceholder(name, p)),
        None => None,
    }
}

/// The first template error, in the order fail, softfail, neutral, none,
/// permerror, temperror.
pub open spec fn messages_error(m: MessageTemplates) -> Option<ConfigErrorView> {
    let e1 = template_error("fail"@, m.fail@);
    let e2 = template_error("softfail"@, m.softfail@);
    let e3 = template_error("neutral"@, m.neutral@);
    let e4 = template_error("none"@, m.none@);
    let e5 = template_error("permerror"@, m.permerror@);
    let e6 = template_error("temperror"@, m.temperror@);
    if e1 is Some {
        e1
    } else if e2 is Some {
        e2
    } else if e3 is Some {
        e3
    } else if e4 is Some {
        e4
    } else if e5 is Some {
        e5
    } else {
        e6
    }
}

/// Position of the first forced record at or after `i` that is no SPF record.
pub open spec fn first_invalid_from(ov: Seq<(String, String)>, i: int) -> Option<int>
    decreases ov.len() - i,
{
    if i < 0 || i >= ov.len() {
        None
    } else if !spf_record_valid(ov[i].1@) {
        Some(i)
    } else {
        first_invalid_from(ov, i + 1)
    }
}

/// The first problem of `c`, checked in the order: listeners, SRS secrets,
/// forced records (in configuration order), message templates.
pub open spec fn validation_error(c: Config) -> Option<ConfigErrorView> {
    if c.server.listen@.len() == 0 {
        Some(ConfigErrorView::NoListenAddresses)
    } else if c.srs.enabled && c.srs.secrets@.len() == 0 {
        Some(ConfigErrorView::SrsEnabledWithoutSecrets)
    } else {
        match first_invalid_from(c.overrides@, 0) {
            Some(i) => Some(
                ConfigErrorView::InvalidOverrideRecord(c.overrides@[i].0@, c.overrides@[i].1@),
            ),
            None => messages_error(c.messages),
        }
    }
}

/// Whether the characters `v` name a known placeholder.
fn is_known_placeholder(v: &[char]) -> (r: bool)
    ensures
        r == known_placeholder(v@),
{
    chars_eq_str(v, "result") || chars_eq_str(v, "sender") || chars_eq_str(v, "helo")
        || chars_eq_str(v, "ip") || chars_eq_str(v, "recipient")
}

/// Checks that every `{...}` of the template `name` is a known placeholder.
pub fn validate_placeholders(name: &str, template: &str) -> (r: Result<(), ConfigError>)
    ensures
        r is Ok <==> template_error(name@, template@) is None,
        r matches Err(e) ==> template_error(name@, template@) == Some(e@),
{
    let v = chars_of(template);
    let mut p: usize = 0;
    assert(v@.skip(0) =~= v@);
    while p < v.len()
        invariant
            p <= v.len(),
            v@ == template@,
            first_unknown_placeholder(template@) == first_unknown_placeholder(v@.skip(p as int)),
        decreases v.len() - p,
    {
        let ghost rest = v@.skip(p as int);
        proof {
            lemma_index_of_skip(v@, '{', p as int, p as int);
        }
        let open = match find_char_from(v.as_slice(), '{', p) {
            Some(o) => o,
            None => {
                assert(index_of(rest, '{') is None);
                return Ok(());
            },
        };
        assert(index_of(rest, '{') == Some(open - p));
        let ghost after = rest.skip(open - p + 1);
        assert(after =~= v@.skip(open + 1));
        proof {
            lemma_index_of_skip(v@, '}', open + 1, open + 1);
        }
        let close = match find_char_from(v.as_slice(), '}', open + 1) {
            Some(c) => c,
            None => {
                assert(index_of(after, '}') is None);
                return Ok(());
            },
        };
        assert(index_of(after, '}') == Some(close - open - 1));
        let placeholder = sub_chars(v.as_slice(), open + 1, close);
        assert(placeholder@ =~= after.take(close - open - 1));
        if !is_known_placeholder(placeholder.as_slice()) {
            return Err(
                ConfigError::UnknownMessagePlaceholder {
                    name: String::from_str(name),
                    placeholder: string_of(placeholder.as_slice()),
                },
            );
        }
        assert(after.skip(close - open - 1 + 1) =~= v@.skip(close + 1));
        p = close + 1;
    }
    assert(v@.skip(p as int) =~= Seq::<char>::empty());
    assert(index_of(Seq::<char>::empty(), '{') is None);
    Ok(())
}

impl Config {
    /// Checks that the configuration can be served: at least one listener,
    /// secrets when SRS unwrapping is enabled, forced records that parse as
    /// SPF records, and message templates that name only known placeholders.
    /// The first problem found is the error.
    pub fn validate(&self) -> (r: Result<(), ConfigError>)
        ensures
            r is Ok <==> validation_error(*self) is None,
            r matches Err(e) ==> validation_error(*self) == Some(e@),
            r matches Err(ConfigError::InvalidOverrideRecord { record, source, .. })
                ==> is_record_error(record@, source),
    {
        if self.server.listen.len() == 0 {
            return Err(ConfigError::NoListenAddresses);
        }
        if self.srs.enabled && self.srs.secrets.len() == 0 {
            return Err(ConfigError::SrsEnabledWithoutSecrets);
        }
        let mut i: usize = 0;
        while i < self.overrides.len()
            invariant
                i <= self.overrides@.len(),
                self.server.listen@.len() != 0,
                !(self.srs.enabled && self.srs.secrets@.len() == 0),
                first_invalid_from(self.overrides@, 0) == first_invalid_from(self.overrides@, i as int),
            decreases self.overrides.len() - i,
        {
            let text = self.overrides[i].1.as_str();
            match parse_spf_record(text) {
                Ok(()) => {},
                Err(source) => {
                    assert(call_ensures(
                        parse_spf_record,
                        (text,),
                        Err::<(), viaspf::record::ParseError>(source),
                    ));
                    return Err(
                        ConfigError::InvalidOverrideRecord {
                            domain: self.overrides[i].0.clone(),
                            record: self.overrides[i].1.clone(),
                            source,
                        },
                    );
                },
            }
            i = i + 1;
        }
        let m = &self.messages;
        match validate_placeholders("fail", m.fail.as_str()) {
            Ok(()) => {},
            Err(e) => return Err(e),
        }
        match validate_placeholders("softfail", m.softfail.as_str()) {
            Ok(()) => {},
            Err(e) => return Err(e),
        }
        match validate_placeholders("neutral", m.neutral.as_str()) {
            Ok(()) => {},
            Err(e) => return Err(e),
        }
        match validate_placeholders("none", m.none.as_str()) {
            Ok(()) => {},
            Err(e) => return Err(e),
        }
        match validate_placeholders("permerror", m.permerror.as_str()) {
            Ok(()) => {},
            Err(e) => return Err(e),
        }
        validate_placeholders("temperror", m.temperror.as_str())
    }
}

/// The first `c` of `s` stands at `i`.
proof fn lemma_index_of_at(s: Seq<char>, c: char, i: int)
    requires
        0 <= i < s.len(),
        s[i] == c,
        forall|j: int| 0 <= j < i ==> s[j] != c,
    ensures
        index_of(s, c) == Some(i),
{
    lemma_index_of_from(s, c, 0);
}

/// A template without `{` names no unknown placeholder.
proof fn lemma_no_placeholder(t: Seq<char>)
    requires
        forall|j: int| 0 <= j < t.len() ==> t[j] != '{',
    ensures
        first_unknown_placeholder(t) is None,
{
    lemma_index_of_from(t, '{', 0);
}

/// A known placeholder after a text without `{` is passed over.
proof fn lemma_known_placeholder_step(a: Seq<char>, name: Seq<char>, b: Seq<char>)
    requires
        forall|j: int| 0 <= j < a.len() ==> a[j] != '{',
        forall|j: int| 0 <= j < name.len() ==> name[j] != '}',
        known_placeholder(name),
    ensures
        first_unknown_placeholder(a + seq!['{'] + name + seq!['}'] + b)
            == first_unknown_placeholder(b),
{
    let t = a + seq!['{'] + name + seq!['}'] + b;
    lemma_index_of_at(t, '{', a.len() as int);
    let after = t.skip(a.len() as int + 1);
    assert(after =~= name + seq!['}'] + b);
    lemma_index_of_at(after, '}', name.len() as int);
    assert(after.take(name.len() as int) =~= name);
    assert(after.skip(name.len() as int + 1) =~= b);
}

/// The default `fail` template uses only known placeholders and starts
/// with `550 5.7.1 `.
proof fn lemma_default_fail_valid()
    ensures
        first_unknown_placeholder(default_fail_text()) is None,
        starts_with(default_fail_text(), "550 5.7.1 "@),
{
    reveal_strlit("550 5.7.1 SPF check failed: {sender} is not allowed to send mail from {ip}");
    reveal_strlit("550 5.7.1 ");
    reveal_strlit("550 5.7.1 SPF check failed: ");
    reveal_strlit(" is not allowed to send mail from ");
    reveal_strlit("sender");
    reveal_strlit("ip");
    let tail = Seq::<char>::empty();
    lemma_no_placeholder(tail);
    let middle = " is not allowed to send mail from "@;
    lemma_known_placeholder_step(middle, "ip"@, tail);
    let rest = middle + seq!['{'] + "ip"@ + seq!['}'] + tail;
    let head = "550 5.7.1 SPF check failed: "@;
    lemma_known_placeholder_step(head, "sender"@, rest);
    assert(default_fail_text() =~= head + seq!['{'] + "sender"@ + seq!['}'] + rest);
    assert(default_fail_text().take(10) =~= "550 5.7.1 "@);
}

/// The default `softfail` template uses only known placeholders and starts
/// with `550 5.7.1 `.
proof fn lemma_default_softfail_valid()
    ensures
        first_unknown_placeholder(default_softfail_text()) is None,
        starts_with(default_softfail_text(), "550 5.7.1 "@),
{
    reveal_strlit("550 5.7.1 SPF check failed (softfail): {sender} is not allowed to send mail from {ip}");
    reveal_strlit("550 5.7.1 ");
    reveal_strlit("550 5.7.1 SPF check failed (softfail): ");
    reveal_strlit(" is not allowed to send mail from ");
    reveal_strlit("sender");
    reveal_strlit("ip");
    let tail = Seq::<char>::empty();
    lemma_no_placeholder(tail);
    let middle = " is not allowed to send mail from "@;
    lemma_known_placeholder_step(middle, "ip"@, tail);
    let rest = middle + seq!['{'] + "ip"@ + seq!['}'] + tail;
    let head = "550 5.7.1 SPF check failed (softfail): "@;
    lemma_known_placeholder_step(head, "sender"@, rest);
    assert(default_softfail_text() =~= head + seq!['{'] + "sender"@ + seq!['}'] + rest);
    assert(default_softfail_text().take(10) =~= "550 5.7.1 "@);
}

/// The default `neutral` template uses only known placeholders and starts
/// with `550 5.7.1 `.
proof fn lemma_default_neutral_valid()
    ensures
        first_unknown_placeholder(default_neutral_text()) is None,
        starts_with(default_neutral_text(), "550 5.7.1 "@),
{
    reveal_strlit("550 5.7.1 SPF check neutral for {sender} from {ip}");
    reveal_strlit("550 5.7.1 ");
    reveal_strlit("550 5.7.1 SPF check neutral for ");
    reveal_strlit(" from ");
    reveal_strlit("sender");
    reveal_strlit("ip");
    let tail = Seq::<char>::empty();
    lemma_no_placeholder(tail);
    let middle = " from "@;
    lemma_known_placeholder_step(middle, "ip"@, tail);
    let rest = middle + seq!['{'] + "ip"@ + seq!['}'] + tail;
    let head = "550 5.7.1 SPF check neutral for "@;
    lemma_known_placeholder_step(head, "sender"@, rest);
    assert(default_neutral_text() =~= head + seq!['{'] + "sender"@ + seq!['}'] + rest);
    assert(default_neutral_text().take(10) =~= "550 5.7.1 "@);
}

/// The default `none` template uses only known placeholders and starts
/// with `550 5.7.1 `.
proof fn lemma_default_none_valid()
    ensures
        first_unknown_placeholder(default_none_text()) is None,
        starts_with(default_none_text(), "550 5.7.1 "@),
{
    reveal_strlit("550 5.7.1 SPF check found no record for {sender}");
    reveal_strlit("550 5.7.1 ");
    reveal_strlit("550 5.7.1 SPF check found no record for ");
    reveal_strlit("sender");
    let tail = Seq::<char>::empty();
    lemma_no_placeholder(tail);
    let head = "550 5.7.1 SPF check found no record for "@;
    lemma_known_placeholder_step(head, "sender"@, tail);
    assert(default_none_text() =~= head + seq!['{'] + "sender"@ + seq!['}'] + tail);
    assert(default_none_text().take(10) =~= "550 5.7.1 "@);
}

/// The default `permerror` template uses only known placeholders and starts
/// with `550 5.7.1 `.
proof fn lemma_default_permerror_valid()
    ensures
        first_unknown_placeholder(default_permerror_text()) is None,
        starts_with(default_permerror_text(), "550 5.7.1 "@),
{
    reveal_strlit("550 5.7.1 SPF check permanent error for {sender}");
    reveal_strlit("550 5.7.1 ");
    reveal_strlit("550 5.7.1 SPF check permanent error for ");
    reveal_strlit("sender");
    let tail = Seq::<char>::empty();
    lemma_no_placeholder(tail);
    let head = "550 5.7.1 SPF check permanent error for "@;
    lemma_known_placeholder_step(head, "sender"@, tail);
    assert(default_permerror_text() =~= head + seq!['{'] + "sender"@ + seq!['}'] + tail);
    assert(default_permerror_text().take(10) =~= "550 5.7.1 "@);
}

/// The default `temperror` template uses only known placeholders and starts
/// with `451 4.7.1 `.
proof fn lemma_default_temperror_valid()
    ensures
        first_unknown_placeholder(default_temperror_text()) is None,
        starts_with(default_temperror_text(), "451 4.7.1 "@),
{
    reveal_strlit("451 4.7.1 Temporary SPF error for {sender}, please try again later");
    reveal_strlit("451 4.7.1 ");
    reveal_strlit("451 4.7.1 Temporary SPF error for ");
    reveal_strlit(", please try again later");
    reveal_strlit("sender");
    let tail = ", please try again later"@;
    lemma_no_placeholder(tail);
    let head = "451 4.7.1 Temporary SPF error for "@;
    lemma_known_placeholder_step(head, "sender"@, tail);
    assert(default_temperror_text() =~= head + seq!['{'] + "sender"@ + seq!['}'] + tail);
    assert(default_temperror_text().take(10) =~= "451 4.7.1 "@);
}

/// Every default message template passes validation (so
/// `validate_placeholders` accepts each under its name, and the template
/// check of `Config::validate` finds nothing): each uses only the
/// `{sender}` and `{ip}` placeholders. The rejecting templates start with
/// `550 5.7.1 ` and the temporary-error one with `451 4.7.1 `.
pub proof fn law_default_templates_validate(m: MessageTemplates)
    requires
        m.fail@ == default_fail_text(),
        m.softfail@ == default_softfail_text(),
        m.neutral@ == default_neutral_text(),
        m.none@ == default_none_text(),
        m.permerror@ == default_permerror_text(),
        m.temperror@ == default_temperror_text(),
    ensures
        template_error("fail"@, m.fail@) is None,
        template_error("softfail"@, m.softfail@) is None,
        template_error("neutral"@, m.neutral@) is None,
        template_error("none"@, m.none@) is None,
        template_error("permerror"@, m.permerror@) is None,
        template_error("temperror"@, m.temperror@) is None,
        messages_error(m) is None,
        starts_with(m.fail@, "550 5.7.1 "@),
        starts_with(m.softfail@, "550 5.7.1 "@),
        starts_with(m.neutral@, "550 5.7.1 "@),
        starts_with(m.none@, "550 5.7.1 "@),
        starts_with(m.permerror@, "550 5.7.1 "@),
        starts_with(m.temperror@, "451 4.7.1 "@),
{
    lemma_default_fail_valid();
    lemma_default_softfail_valid();
    lemma_default_neutral_valid();
    lemma_default_none_valid();
    lemma_default_permerror_valid();
    lemma_default_temperror_valid();
}

} // verus!
