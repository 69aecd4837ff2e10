//! Unwrapping of SRS0 envelope senders (the Sender Rewriting Scheme used by
//! forwarding relays).
//!
//! Format: `SRS0=HHH=TT=domain=local@rewrite-domain`, where `HHH` is the
//! first four characters of the standard base64 encoding of
//! `HMAC-SHA1(secret, "TT=domain=local")` and `TT` is a two-character
//! base32 encoding of the rewrite day modulo 1024.
//!
//! The hash is checked against the configured secrets before the embedded
//! domain is trusted: a forged or unverifiable rewrite never unwraps, so the
//! literal sender is evaluated instead.
use vstd::prelude::*;

use base64::Engine;
use hmac::{Hmac, Mac};
use sha1::Sha1;

use crate::config::SrsConfig;
use crate::text::{
    append_str, chars_of, find_char, push_char, split_once, starts_with, str_eq, string_of,
    sub_chars,
};

verus! {

/// What became of an envelope sender offered for unwrapping.
#[derive(Debug, Clone, PartialEq, Eq)]
pub enum SrsUnwrap {
    /// Not an `SRS0=` address (or unwrapping is disabled).
    NotSrs,
    /// A verified rewrite; SPF is evaluated against this address instead.
    Valid { original_sender: String },
    /// Shaped like `SRS0=...`, but no configured secret gives its hash (or
    /// its timestamp is not two base32 characters).
    InvalidHash,
    /// The hash verified, but the rewrite is older than the configured age.
    Expired,
}

/// `SrsUnwrap` with the original sender as a character sequence.
pub enum SrsUnwrapView {
    NotSrs,
    Valid(Seq<char>),
    InvalidHash,
    Expired,
}

impl View for SrsUnwrap {
    type V = SrsUnwrapView;

    open spec fn view(&self) -> SrsUnwrapView {
        match self {
            SrsUnwrap::NotSrs => SrsUnwrapView::NotSrs,
            SrsUnwrap::Valid { original_sender } => SrsUnwrapView::Valid(original_sender@),
            SrsUnwrap::InvalidHash => SrsUnwrapView::InvalidHash,
            SrsUnwrap::Expired => SrsUnwrapView::Expired,
        }
    }
}

/// HMAC-SHA1 of `msg` under `key`.
pub uninterp spec fn hmac_sha1(key: Seq<u8>, msg: Seq<u8>) -> Seq<u8>;

/// The character of a six-bit value in the standard base64 alphabet
/// (`A-Z`, `a-z`, `0-9`, `+`, `/`).
pub open spec fn base64_digit(v: int) -> char {
    if v < 26 {
        ('A' as int + v) as char
    } else if v < 52 {
        ('a' as int + (v - 26)) as char
    } else if v < 62 {
        ('0' as int + (v - 52)) as char
    } else if v == 62 {
        '+'
    } else {
        '/'
    }
}

/// The standard (RFC 4648, padded) base64 encoding of `bytes`: every three
/// bytes become four digits; a last group of one or two bytes becomes two
/// or three digits followed by `==` or `=`.
pub open spec fn base64_standard(bytes: Seq<u8>) -> Seq<char>
    decreases bytes.len(),
{
    if bytes.len() == 0 {
        seq![]
    } else if bytes.len() == 1 {
        let b0 = bytes[0] as int;
        seq![base64_digit(b0 / 4), base64_digit((b0 % 4) * 16), '=', '=']
    } else if bytes.len() == 2 {
        let b0 = bytes[0] as int;
        let b1 = bytes[1] as int;
        seq![
            base64_digit(b0 / 4),
            base64_digit((b0 % 4) * 16 + b1 / 16),
            base64_digit((b1 % 16) * 4),
            '=',
        ]
    } else {
        let b0 = bytes[0] as int;
        let b1 = bytes[1] as int;
        let b2 = bytes[2] as int;
        seq![
            base64_digit(b0 / 4),
            base64_digit((b0 % 4) * 16 + b1 / 16),
            base64_digit((b1 % 16) * 4 + b2 / 64),
            base64_digit(b2 % 64),
        ] + base64_standard(bytes.skip(3))
    }
}

/// Number of hash characters kept in an SRS0 address.
pub const HASH_LEN_CHARS: usize = 4;

/// Days after which the SRS timestamp wraps around.
pub const DAYS_PER_CYCLE: u32 = 1024;

/// The text that the hash covers: `TT=domain=local`.
pub open spec fn hash_input(timestamp: Seq<char>, domain: Seq<char>, local: Seq<char>) -> Seq<
    char,
> {
    timestamp + seq!['='] + domain + seq!['='] + local
}

/// The hash that `secret` gives a rewrite: the first four characters of the
/// base64 of the HMAC-SHA1 of its UTF-8 input under the secret's UTF-8 bytes.
pub open spec fn srs_hash(secret: Seq<char>, timestamp: Seq<char>, domain: Seq<char>, local: Seq<
    char,
>) -> Seq<char> {
    let encoded = base64_standard(
        hmac_sha1(
            vstd::utf8::encode_utf8(secret),
            vstd::utf8::encode_utf8(hash_input(timestamp, domain, local)),
        ),
    );
    if encoded.len() < 4 {
        encoded
    } else {
        encoded.take(4)
    }
}

/// The value of one base32 digit (`0-9`, `A-V`, in either case).
pub open spec fn base32_value(c: char) -> Option<nat> {
    if '0' <= c && c <= '9' {
        Some((c as nat - '0' as nat) as nat)
    } else if 'A' <= c && c <= 'V' {
        Some((c as nat - 'A' as nat + 10) as nat)
    } else if 'a' <= c && c <= 'v' {
        Some((c as nat - 'a' as nat + 10) as nat)
    } else {
        None
    }
}

/// The day number (mod 1024) that a two-character timestamp encodes.
pub open spec fn decode_ts(ts: Seq<char>) -> Option<nat> {
    if ts.len() != 2 {
        None
    } else {
        match (base32_value(ts[0]), base32_value(ts[1])) {
            (Some(hi), Some(lo)) => Some(hi * 32 + lo),
            _ => None,
        }
    }
}

/// Days from the timestamp `ts` to `today`, counted around the 1024-day cycle.
pub open spec fn age_days(ts: nat, today: nat) -> int {
    ((today % 1024) as int - ts as int) % 1024
}

/// The four `=`-separated fields of an `SRS0=` address (hash, timestamp,
/// domain, local part), the last of which may itself hold `=`.
pub open spec fn srs_fields(raw: Seq<char>) -> Option<(Seq<char>, Seq<char>, Seq<char>, Seq<char>)> {
    if !starts_with(raw, seq!['S', 'R', 'S', '0', '=']) {
        None
    } else {
        match split_once(raw.skip(5), '@') {
            None => None,
            Some((payload, _rewrite_domain)) => match split_once(payload, '=') {
                None => None,
                Some((hash, r1)) => match split_once(r1, '=') {
                    None => None,
                    Some((ts, r2)) => match split_once(r2, '=') {
                        None => None,
                        Some((domain, local)) => Some((hash, ts, domain, local)),
                    },
                },
            },
        }
    }
}

/// Some configured secret gives the hash `hash`.
pub open spec fn hash_verified(
    secrets: Seq<Seq<char>>,
    hash: Seq<char>,
    ts: Seq<char>,
    domain: Seq<char>,
    local: Seq<char>,
) -> bool {
    exists|i: int| 0 <= i < secrets.len() && #[trigger] srs_hash(secrets[i], ts, domain, local) == hash
}

/// The secrets of a configuration as character sequences.
pub open spec fn secrets_view(cfg: SrsConfig) -> Seq<Seq<char>> {
    cfg.secrets@.map_values(|s: String| s@)
}

/// What unwrapping `raw` gives under `cfg` on day `today` (`None` when the
/// day is unknown, in which case no rewrite counts as fresh).
pub open spec fn srs_outcome(raw: Seq<char>, cfg: SrsConfig, today: Option<nat>) -> SrsUnwrapView {
    if !cfg.enabled {
        SrsUnwrapView::NotSrs
    } else {
        match srs_fields(raw) {
            None => SrsUnwrapView::NotSrs,
            Some((hash, ts, domain, local)) => if !hash_verified(
                secrets_view(cfg),
                hash,
                ts,
                domain,
                local,
            ) {
                SrsUnwrapView::InvalidHash
            } else {
                match decode_ts(ts) {
                    None => SrsUnwrapView::InvalidHash,
                    Some(v) => match today {
                        None => SrsUnwrapView::Expired,
                        Some(t) => if age_days(v, t) > cfg.max_age_days {
                            SrsUnwrapView::Expired
                        } else {
                            SrsUnwrapView::Valid(local + seq!['@'] + domain)
                        },
                    },
                }
            },
        }
    }
}

/// HMAC-SHA1 through the `hmac` and `sha1` crates (`Hmac::<Sha1>::new_from_slice`,
/// `update`, `finalize`). `new_from_slice` accepts a key of any length (a long
/// key is hashed, a short one padded), so the result is always present; the
/// digest itself is only named.
#[verifier::external_body]
fn hmac_sha1_digest(key: &[u8], msg: &[u8]) -> (r: Option<Vec<u8>>)
    ensures
        r is Some,
        r.unwrap()@ == hmac_sha1(key@, msg@),
{
    match <Hmac<Sha1> as Mac>::new_from_slice(key) {
        Ok(mut mac) => {
            mac.update(msg);
            Some(mac.finalize().into_bytes().to_vec())
        },
        Err(_) => None,
    }
}

/// Standard padded base64 through the `base64` crate
/// (`general_purpose::STANDARD.encode`), which the contract states digit by
/// digit.
#[verifier::external_body]
fn base64_encode(bytes: &[u8]) -> (r: String)
    ensures
        r@ == base64_standard(bytes@),
{
    base64::engine::general_purpose::STANDARD.encode(bytes)
}

/// Seconds since the Unix epoch by the system clock (`SystemTime::now`),
/// or `None` when the clock reads earlier than the epoch. Nothing is stated
/// of the value: it is the time.
#[verifier::external_body]
fn unix_time_secs() -> (r: Option<u64>) {
    match std::time::SystemTime::now().duration_since(std::time::UNIX_EPOCH) {
        Ok(d) => Some(d.as_secs()),
        Err(_) => None,
    }
}

/// The SRS hash of a rewrite under `secret`.
pub fn compute_hash(secret: &str, timestamp: &str, domain: &str, local: &str) -> (r: Option<String>)
    ensures
        r matches Some(h) && h@ == srs_hash(secret@, timestamp@, domain@, local@),
{
    let mut input = String::new();
    append_str(&mut input, timestamp);
    push_char(&mut input, '=');
    append_str(&mut input, domain);
    push_char(&mut input, '=');
    append_str(&mut input, local);
    assert(input@ == hash_input(timestamp@, domain@, local@));
    let digest = match hmac_sha1_digest(secret.as_bytes(), input.as_str().as_bytes()) {
        Some(d) => d,
        None => return None,
    };
    let encoded = base64_encode(digest.as_slice());
    let chars = chars_of(encoded.as_str());
    let n: usize = if chars.len() < HASH_LEN_CHARS {
        chars.len()
    } else {
        HASH_LEN_CHARS
    };
    let kept = sub_chars(chars.as_slice(), 0, n);
    assert(kept@ == srs_hash(secret@, timestamp@, domain@, local@));
    Some(string_of(kept.as_slice()))
}

/// The value of one base32 digit, if `c` is one.
pub fn base32_digit(c: char) -> (r: Option<u32>)
    ensures
        r matches Some(d) ==> base32_value(c) == Some(d as nat),
        r is None ==> base32_value(c) is None,
{
    if '0' <= c && c <= '9' {
        Some((c as u32) - ('0' as u32))
    } else if 'A' <= c && c <= 'V' {
        Some((c as u32) - ('A' as u32) + 10)
    } else if 'a' <= c && c <= 'v' {
        Some((c as u32) - ('a' as u32) + 10)
    } else {
        None
    }
}

/// The day number (mod 1024) of a two-character base32 timestamp.
pub fn decode_timestamp(s: &str) -> (r: Option<u32>)
    ensures
        r matches Some(v) ==> decode_ts(s@) == Some(v as nat),
        r is None ==> decode_ts(s@) is None,
{
    let chars = chars_of(s);
    if chars.len() != 2 {
        return None;
    }
    let hi = match base32_digit(chars[0]) {
        Some(d) => d,
        None => return None,
    };
    let lo = match base32_digit(chars[1]) {
        Some(d) => d,
        None => return None,
    };
    Some(hi * 32 + lo)
}

/// Days from the timestamp `decoded_ts` to `today`, around the 1024-day cycle.
pub fn age_in_days(decoded_ts: u32, today: u64) -> (r: u32)
    ensures
        r == age_days(decoded_ts as nat, today as nat),
        r < 1024,
{
    let now: u32 = (today % 1024) as u32;
    let ts: u32 = decoded_ts % 1024;
    assert((now as int - decoded_ts as int) % 1024 == (now as int - ts as int) % 1024) by (nonlinear_arith)
        requires
            ts == decoded_ts % 1024,
    {
        assert(decoded_ts == 1024 * (decoded_ts / 1024) + ts);
        assert((now as int - decoded_ts as int) == (now as int - ts as int) + 1024 * (-(decoded_ts / 1024) as int));
        vstd::arithmetic::div_mod::lemma_mod_multiples_vanish(-(decoded_ts / 1024) as int, now as int - ts as int, 1024);
    }
    if now >= ts {
        now - ts
    } else {
        assert((now as int - ts as int) % 1024 == now as int + 1024 - ts as int) by (nonlinear_arith)
            requires
                now < ts < 1024,
        {
            vstd::arithmetic::div_mod::lemma_mod_multiples_vanish(1, now as int - ts as int, 1024);
        }
        now + 1024 - ts
    }
}

/// Whether the system clock can read `secs` (seconds since the Unix
/// epoch, `None` before it).
pub closed spec fn clock_reading(secs: Option<u64>) -> bool {
    call_ensures(unix_time_secs, (), secs)
}

/// Whether `day` is the day number of the clock reading `secs`: the number
/// of whole days of 86400 seconds in it (`None` for a reading before the
/// epoch).
pub open spec fn is_day_of(secs: Option<u64>, day: Option<nat>) -> bool {
    match (secs, day) {
        (Some(s), Some(d)) => d * 86400 <= s < (d + 1) * 86400,
        (None, None) => true,
        _ => false,
    }
}

/// Whole days since the Unix epoch by the system clock, or `None` when the
/// clock reads earlier than the epoch.
pub fn current_days_since_epoch() -> (r: Option<u64>)
    ensures
        r matches Some(d) ==> d <= u64::MAX / 86400,
        exists|secs: Option<u64>|
            #[trigger] clock_reading(secs) && is_day_of(
                secs,
                match r {
                    Some(d) => Some(d as nat),
                    None => None,
                },
            ),
{
    let secs = unix_time_secs();
    assert(clock_reading(secs));
    match secs {
        Some(s) => {
            let d = s / 86400;
            assert(d * 86400 <= s < (d + 1) * 86400) by (nonlinear_arith)
                requires
                    d == s / 86400,
            ;
            Some(d)
        },
        None => None,
    }
}

/// Whether some secret of `secrets` gives the hash `hash`.
fn any_secret_matches(secrets: &Vec<String>, hash: &str, ts: &str, domain: &str, local: &str) -> (r: bool)
    ensures
        r == hash_verified(secrets@.map_values(|s: String| s@), hash@, ts@, domain@, local@),
{
    let ghost sv = secrets@.map_values(|s: String| s@);
    let mut i: usize = 0;
    while i < secrets.len()
        invariant
            i <= secrets.len(),
            sv == secrets@.map_values(|s: String| s@),
            forall|j: int| 0 <= j < i ==> #[trigger] srs_hash(sv[j], ts@, domain@, local@) != hash@,
        decreases secrets.len() - i,
    {
        let h = compute_hash(secrets[i].as_str(), ts, domain, local);
        match h {
            Some(h) => {
                if str_eq(h.as_str(), hash) {
                    assert(sv[i as int] == secrets@[i as int]@);
                    return true;
                }
            },
            None => {},
        }
        assert(sv[i as int] == secrets@[i as int]@);
        i = i + 1;
    }
    false
}

/// Unwraps `raw_sender` as it stands on day `today` (days since the Unix
/// epoch; `None` when the day is unknown): the fields of an `SRS0=` address
/// are split out, its hash is checked against each configured secret in
/// turn (so that secrets can be rotated), then its timestamp against the
/// configured maximum age.
pub fn try_unwrap_at(raw_sender: &str, cfg: &SrsConfig, today: Option<u64>) -> (r: SrsUnwrap)
    ensures
        r@ == srs_outcome(
            raw_sender@,
            *cfg,
            match today {
                Some(t) => Some(t as nat),
                None => None,
            },
        ),
{
    if !cfg.enabled {
        return SrsUnwrap::NotSrs;
    }
    let v = chars_of(raw_sender);
    let ghost raw = raw_sender@;
    if v.len() < 5 || v[0] != 'S' || v[1] != 'R' || v[2] != 'S' || v[3] != '0' || v[4] != '=' {
        assert(!starts_with(raw, seq!['S', 'R', 'S', '0', '='])) by {
            if starts_with(raw, seq!['S', 'R', 'S', '0', '=']) {
                assert(raw.take(5)[0] == 'S');
                assert(raw.take(5)[1] == 'R');
                assert(raw.take(5)[2] == 'S');
                assert(raw.take(5)[3] == '0');
                assert(raw.take(5)[4] == '=');
            }
        }
        return SrsUnwrap::NotSrs;
    }
    assert(raw.take(5) =~= seq!['S', 'R', 'S', '0', '=']);
    let rest = sub_chars(v.as_slice(), 5, v.len());
    assert(rest@ =~= raw.skip(5));
    let at = match find_char(rest.as_slice(), '@') {
        Some(i) => i,
        None => return SrsUnwrap::NotSrs,
    };
    let payload = sub_chars(rest.as_slice(), 0, at);
    assert(payload@ =~= rest@.take(at as int));
    let e1 = match find_char(payload.as_slice(), '=') {
        Some(i) => i,
        None => return SrsUnwrap::NotSrs,
    };
    let hash = sub_chars(payload.as_slice(), 0, e1);
    let r1 = sub_chars(payload.as_slice(), e1 + 1, payload.len());
    assert(hash@ =~= payload@.take(e1 as int));
    assert(r1@ =~= payload@.skip(e1 + 1));
    let e2 = match find_char(r1.as_slice(), '=') {
        Some(i) => i,
        None => return SrsUnwrap::NotSrs,
    };
    let ts = sub_chars(r1.as_slice(), 0, e2);
    let r2 = sub_chars(r1.as_slice(), e2 + 1, r1.len());
    assert(ts@ =~= r1@.take(e2 as int));
    assert(r2@ =~= r1@.skip(e2 + 1));
    let e3 = match find_char(r2.as_slice(), '=') {
        Some(i) => i,
        None => return SrsUnwrap::NotSrs,
    };
    let domain = sub_chars(r2.as_slice(), 0, e3);
    let local = sub_chars(r2.as_slice(), e3 + 1, r2.len());
    assert(domain@ =~= r2@.take(e3 as int));
    assert(local@ =~= r2@.skip(e3 + 1));
    assert(srs_fields(raw) == Some((hash@, ts@, domain@, local@)));
    let hash_s = string_of(hash.as_slice());
    let ts_s = string_of(ts.as_slice());
    let domain_s = string_of(domain.as_slice());
    let local_s = string_of(local.as_slice());
    if !any_secret_matches(&cfg.secrets, hash_s.as_str(), ts_s.as_str(), domain_s.as_str(), local_s.as_str()) {
        return SrsUnwrap::InvalidHash;
    }
    let decoded = match decode_timestamp(ts_s.as_str()) {
        Some(d) => d,
        None => return SrsUnwrap::InvalidHash,
    };
    let day = match today {
        Some(t) => t,
        None => return SrsUnwrap::Expired,
    };
    if age_in_days(decoded, day) > cfg.max_age_days {
        return SrsUnwrap::Expired;
    }
    let mut original_sender = String::new();
    append_str(&mut original_sender, local_s.as_str());
    push_char(&mut original_sender, '@');
    append_str(&mut original_sender, domain_s.as_str());
    assert(secrets_view(*cfg) == cfg.secrets@.map_values(|s: String| s@));
    assert(hash_verified(secrets_view(*cfg), hash@, ts@, domain@, local@));
    assert(decode_ts(ts@) == Some(decoded as nat));
    assert(original_sender@ == local@ + seq!['@'] + domain@);
    SrsUnwrap::Valid { original_sender }
}

/// Unwraps `raw_sender` as it stands today by the system clock. Whatever the
/// clock reads, the result is what [`try_unwrap_at`] gives for some day (or
/// for an unknown day, when the clock reads before the epoch).
pub fn try_unwrap(raw_sender: &str, cfg: &SrsConfig) -> (r: SrsUnwrap)
    ensures
        exists|today: Option<nat>| r@ == #[trigger] srs_outcome(raw_sender@, *cfg, today),
        exists|secs: Option<u64>, today: Option<nat>|
            #[trigger] clock_reading(secs) && is_day_of(secs, today) && r@ == #[trigger] srs_outcome(
                raw_sender@,
                *cfg,
                today,
            ),
{
    let today = current_days_since_epoch();
    let r = try_unwrap_at(raw_sender, cfg, today);
    let ghost t: Option<nat> = match today {
        Some(t) => Some(t as nat),
        None => None,
    };
    assert(r@ == srs_outcome(raw_sender@, *cfg, t));
    proof {
        let secs = choose|secs: Option<u64>| #[trigger] clock_reading(secs) && is_day_of(secs, t);
        assert(clock_reading(secs) && is_day_of(secs, t) && r@ == srs_outcome(raw_sender@, *cfg, t));
    }
    r
}

/// The base32 digit (upper case) for a value below 32.
pub open spec fn base32_char(d: nat) -> char {
    if d < 10 {
        ((48 + d) as u32) as char
    } else {
        ((55 + d) as u32) as char
    }
}

/// With unwrapping disabled, no sender is ever unwrapped.
pub proof fn law_disabled_never_unwraps(raw: Seq<char>, cfg: SrsConfig, today: Option<nat>)
    requires
        !cfg.enabled,
    ensures
        srs_outcome(raw, cfg, today) == SrsUnwrapView::NotSrs,
{
}

/// A sender is unwrapped only when it is an `SRS0=` address whose hash some
/// configured secret gives, whose timestamp decodes, and whose age is within
/// the configured maximum; the result is then its local part and domain.
pub proof fn law_unwrap_requires_verified_hash(raw: Seq<char>, cfg: SrsConfig, today: Option<nat>)
    ensures
        srs_outcome(raw, cfg, today) matches SrsUnwrapView::Valid(sender) ==> (cfg.enabled && (
        srs_fields(raw) matches Some((hash, ts, domain, local)) && hash_verified(
            secrets_view(cfg),
            hash,
            ts,
            domain,
            local,
        ) && (decode_ts(ts) matches Some(v) && (today matches Some(day) && age_days(v, day)
            <= cfg.max_age_days && sender == local + seq!['@'] + domain)))),
{
}

/// Any one of the configured secrets verifies a rewrite, wherever it stands
/// in the list (so that secrets can be rotated).
pub proof fn law_any_configured_secret_verifies(
    raw: Seq<char>,
    cfg: SrsConfig,
    today: Option<nat>,
    i: int,
)
    requires
        cfg.enabled,
        0 <= i < cfg.secrets@.len(),
        srs_fields(raw) matches Some((hash, ts, domain, local)) && srs_hash(
            cfg.secrets@[i]@,
            ts,
            domain,
            local,
        ) == hash && decode_ts(ts) is Some,
    ensures
        !(srs_outcome(raw, cfg, today) is InvalidHash),
        !(srs_outcome(raw, cfg, today) is NotSrs),
{
    let (hash, ts, domain, local) = srs_fields(raw)->0;
    assert(secrets_view(cfg)[i] == cfg.secrets@[i]@);
    assert(srs_hash(secrets_view(cfg)[i], ts, domain, local) == hash);
}

/// A timestamp written with the base32 digits of a day below 1024 decodes
/// to that day.
pub proof fn law_timestamp_roundtrip(day: nat)
    requires
        day < 1024,
    ensures
        decode_ts(seq![base32_char(day / 32), base32_char(day % 32)]) == Some(day),
{
    let hi = day / 32;
    let lo = day % 32;
    assert(hi < 32);
    assert(base32_value(base32_char(hi)) == Some(hi));
    assert(base32_value(base32_char(lo)) == Some(lo));
    assert(hi * 32 + lo == day);
}

/// Each secret of `cfg1` is among the secrets of `cfg2`.
pub open spec fn secrets_within(cfg1: SrsConfig, cfg2: SrsConfig) -> bool {
    forall|i: int|
        0 <= i < secrets_view(cfg1).len() ==> secrets_view(cfg2).contains(
            #[trigger] secrets_view(cfg1)[i],
        )
}

/// A hash that some secret of `cfg1` gives, some secret of `cfg2` gives too,
/// when `cfg2` holds every secret of `cfg1`.
proof fn lemma_hash_verified_within(
    cfg1: SrsConfig,
    cfg2: SrsConfig,
    hash: Seq<char>,
    ts: Seq<char>,
    domain: Seq<char>,
    local: Seq<char>,
)
    requires
        secrets_within(cfg1, cfg2),
        hash_verified(secrets_view(cfg1), hash, ts, domain, local),
    ensures
        hash_verified(secrets_view(cfg2), hash, ts, domain, local),
{
    let i = choose|i: int|
        0 <= i < secrets_view(cfg1).len() && #[trigger] srs_hash(
            secrets_view(cfg1)[i],
            ts,
            domain,
            local,
        ) == hash;
    let k = choose|k: int|
        0 <= k < secrets_view(cfg2).len() && secrets_view(cfg2)[k] == secrets_view(cfg1)[i];
    assert(srs_hash(secrets_view(cfg2)[k], ts, domain, local) == hash);
}

/// Rotating secrets in: a configuration that holds every secret of another
/// (in any order, with more added) unwraps to the same result every sender
/// that the other verified, that is, every one it gave `Valid` or `Expired`.
pub proof fn law_added_secrets_keep_verified_results(
    raw: Seq<char>,
    cfg1: SrsConfig,
    cfg2: SrsConfig,
    today: Option<nat>,
)
    requires
        cfg1.enabled == cfg2.enabled,
        cfg1.max_age_days == cfg2.max_age_days,
        secrets_within(cfg1, cfg2),
    ensures
        (srs_outcome(raw, cfg1, today) is Valid || srs_outcome(raw, cfg1, today) is Expired)
            ==> srs_outcome(raw, cfg2, today) == srs_outcome(raw, cfg1, today),
{
    if srs_outcome(raw, cfg1, today) is Valid || srs_outcome(raw, cfg1, today) is Expired {
        let (hash, ts, domain, local) = srs_fields(raw)->0;
        lemma_hash_verified_within(cfg1, cfg2, hash, ts, domain, local);
    }
}

/// The order of the configured secrets does not matter: two configurations
/// that hold the same secrets (each within the other) unwrap every sender
/// alike.
pub proof fn law_secret_order_does_not_matter(
    raw: Seq<char>,
    cfg1: SrsConfig,
    cfg2: SrsConfig,
    today: Option<nat>,
)
    requires
        cfg1.enabled == cfg2.enabled,
        cfg1.max_age_days == cfg2.max_age_days,
        secrets_within(cfg1, cfg2),
        secrets_within(cfg2, cfg1),
    ensures
        srs_outcome(raw, cfg2, today) == srs_outcome(raw, cfg1, today),
{
    if srs_fields(raw) is Some {
        let (hash, ts, domain, local) = srs_fields(raw)->0;
        if hash_verified(secrets_view(cfg1), hash, ts, domain, local) {
            lemma_hash_verified_within(cfg1, cfg2, hash, ts, domain, local);
        }
        if hash_verified(secrets_view(cfg2), hash, ts, domain, local) {
            lemma_hash_verified_within(cfg2, cfg1, hash, ts, domain, local);
        }
    }
}

/// A rewrite made today is fresh: an `SRS0=` address whose hash some
/// configured secret gives and whose timestamp is today's day number
/// (modulo the 1024-day cycle) unwraps to its original sender, whatever
/// the configured maximum age.
pub proof fn law_todays_rewrite_unwraps(raw: Seq<char>, cfg: SrsConfig, today: nat)
    requires
        cfg.enabled,
        srs_fields(raw) matches Some((hash, ts, domain, local)) && hash_verified(
            secrets_view(cfg),
            hash,
            ts,
            domain,
            local,
        ) && decode_ts(ts) == Some(today % 1024),
    ensures
        srs_fields(raw) matches Some((_, _, domain, local)) && srs_outcome(raw, cfg, Some(today))
            == SrsUnwrapView::Valid(local + seq!['@'] + domain),
{
    assert(age_days(today % 1024, today) == 0);
}

/// The day that unwrapping goes by is the clock's: a reading of `secs`
/// seconds since the epoch is day `secs / 86400`, and no other.
pub proof fn law_day_of_reading_is_whole_days(secs: u64, day: nat)
    ensures
        is_day_of(Some(secs), Some(day)) <==> day == secs as nat / 86400,
{
    if is_day_of(Some(secs), Some(day)) {
        assert(day == secs as nat / 86400) by (nonlinear_arith)
            requires
                day * 86400 <= secs < (day + 1) * 86400,
        ;
    }
    if day == secs as nat / 86400 {
        assert(day * 86400 <= secs < (day + 1) * 86400) by (nonlinear_arith)
            requires
                day == secs as nat / 86400,
        ;
    }
}

} // verus!
