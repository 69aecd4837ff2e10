use rspf::config::SrsConfig;
use rspf::srs::{
    age_in_days, compute_hash, current_days_since_epoch, decode_timestamp, try_unwrap,
    try_unwrap_at, SrsUnwrap, DAYS_PER_CYCLE,
};

const BASE32_ALPHABET: &[u8] = b"0123456789ABCDEFGHIJKLMNOPQRSTUV";

fn encode_timestamp(days_since_epoch: u64) -> String {
    let val = (days_since_epoch % DAYS_PER_CYCLE as u64) as u32;
    let hi = BASE32_ALPHABET[(val / 32) as usize] as char;
    let lo = BASE32_ALPHABET[(val % 32) as usize] as char;
    format!("{hi}{lo}")
}

fn cfg(secrets: &[&str], max_age_days: u32) -> SrsConfig {
    SrsConfig {
        enabled: true,
        secrets: secrets.iter().map(|s| s.to_string()).collect(),
        max_age_days,
    }
}

fn today() -> u64 {
    current_days_since_epoch().unwrap()
}

fn make_srs_address(secret: &str, days_since_epoch: u64, domain: &str, local: &str) -> String {
    let timestamp = encode_timestamp(days_since_epoch);
    let hash = compute_hash(secret, &timestamp, domain, local).unwrap();
    format!("SRS0={hash}={timestamp}={domain}={local}@relay.example.net")
}

#[test]
fn not_srs_when_disabled() {
    let mut c = cfg(&["secret"], 21);
    c.enabled = false;
    let addr = make_srs_address("secret", today(), "example.com", "user");
    assert_eq!(try_unwrap(&addr, &c), SrsUnwrap::NotSrs);
}

#[test]
fn not_srs_for_ordinary_address() {
    assert_eq!(
        try_unwrap("user@example.com", &cfg(&["secret"], 21)),
        SrsUnwrap::NotSrs
    );
}

#[test]
fn valid_srs_address_unwraps_to_original_sender() {
    let addr = make_srs_address("secret", today(), "example.com", "user");
    assert_eq!(
        try_unwrap(&addr, &cfg(&["secret"], 21)),
        SrsUnwrap::Valid {
            original_sender: "user@example.com".to_string()
        }
    );
}

#[test]
fn tampered_domain_fails_hash_verification() {
    let addr = make_srs_address("secret", today(), "example.com", "user");
    let tampered = addr.replace("example.com", "attacker.com");
    assert_eq!(
        try_unwrap(&tampered, &cfg(&["secret"], 21)),
        SrsUnwrap::InvalidHash
    );
}

#[test]
fn wrong_secret_fails_hash_verification() {
    let addr = make_srs_address("secret", today(), "example.com", "user");
    assert_eq!(
        try_unwrap(&addr, &cfg(&["wrong-secret"], 21)),
        SrsUnwrap::InvalidHash
    );
}

#[test]
fn secret_rotation_tries_each_configured_secret() {
    let addr = make_srs_address("new-secret", today(), "example.com", "user");
    assert_eq!(
        try_unwrap(&addr, &cfg(&["old-secret", "new-secret"], 21)),
        SrsUnwrap::Valid {
            original_sender: "user@example.com".to_string()
        }
    );
}

#[test]
fn expired_timestamp_is_rejected() {
    let old_days = today().saturating_sub(30);
    let addr = make_srs_address("secret", old_days, "example.com", "user");
    assert_eq!(try_unwrap(&addr, &cfg(&["secret"], 21)), SrsUnwrap::Expired);
}

#[test]
fn within_max_age_is_accepted() {
    let recent_days = today().saturating_sub(5);
    let addr = make_srs_address("secret", recent_days, "example.com", "user");
    assert_eq!(
        try_unwrap(&addr, &cfg(&["secret"], 21)),
        SrsUnwrap::Valid {
            original_sender: "user@example.com".to_string()
        }
    );
}

#[test]
fn malformed_srs_prefix_without_enough_parts_is_not_srs() {
    assert_eq!(
        try_unwrap("SRS0=onlyonepart@relay.example.net", &cfg(&["secret"], 21)),
        SrsUnwrap::NotSrs
    );
}

#[test]
fn timestamp_roundtrip() {
    for day in [0u64, 1, 500, 1023, 1024, 2000, 100_000] {
        let encoded = encode_timestamp(day);
        let decoded = decode_timestamp(&encoded).unwrap();
        assert_eq!(decoded, (day % DAYS_PER_CYCLE as u64) as u32);
    }
}

// --- further scenarios ---

#[test]
fn hash_is_four_characters_of_base64_hmac_sha1() {
    // base64(HMAC-SHA1("secret", "AB=example.com=user")) = "UPkyahVanMt8vLK0ZW2jMje6+Vk="
    assert_eq!(
        compute_hash("secret", "AB", "example.com", "user").as_deref(),
        Some("UPky")
    );
    // base64(HMAC-SHA1("Jefe", "what=do ya=want for nothing?")) = "lSmlmKvEdm9R8MTe0YNf6fZhxOU="
    assert_eq!(
        compute_hash("Jefe", "what", "do ya", "want for nothing?").as_deref(),
        Some("lSml")
    );
}

#[test]
fn decode_timestamp_accepts_either_case_and_refuses_others() {
    assert_eq!(decode_timestamp("00"), Some(0));
    assert_eq!(decode_timestamp("VV"), Some(1023));
    assert_eq!(decode_timestamp("vv"), Some(1023));
    assert_eq!(decode_timestamp("1a"), Some(42));
    assert_eq!(decode_timestamp("W0"), None);
    assert_eq!(decode_timestamp("0"), None);
    assert_eq!(decode_timestamp("000"), None);
    assert_eq!(decode_timestamp("é0"), None);
}

#[test]
fn age_wraps_around_the_cycle() {
    assert_eq!(age_in_days(0, 1024), 0);
    assert_eq!(age_in_days(1020, 1024 + 3), 7);
    assert_eq!(age_in_days(5, 10), 5);
    assert_eq!(age_in_days(10, 5), 1019);
}

#[test]
fn unwrap_at_a_fixed_day() {
    let addr = make_srs_address("secret", 20_000, "example.com", "user");
    let c = cfg(&["secret"], 21);
    assert_eq!(
        try_unwrap_at(&addr, &c, Some(20_021)),
        SrsUnwrap::Valid {
            original_sender: "user@example.com".to_string()
        }
    );
    assert_eq!(try_unwrap_at(&addr, &c, Some(20_022)), SrsUnwrap::Expired);
    assert_eq!(try_unwrap_at(&addr, &c, None), SrsUnwrap::Expired);
}

#[test]
fn local_part_may_hold_equals_signs() {
    let addr = make_srs_address("secret", 20_000, "example.com", "a=b");
    assert_eq!(
        try_unwrap_at(&addr, &cfg(&["secret"], 21), Some(20_000)),
        SrsUnwrap::Valid {
            original_sender: "a=b@example.com".to_string()
        }
    );
}

#[test]
fn bad_timestamp_with_matching_hash_is_invalid() {
    let hash = compute_hash("secret", "!!", "example.com", "user").unwrap();
    let addr = format!("SRS0={hash}=!!=example.com=user@relay.example.net");
    assert_eq!(
        try_unwrap_at(&addr, &cfg(&["secret"], 21), Some(0)),
        SrsUnwrap::InvalidHash
    );
}

#[test]
fn no_secrets_means_nothing_verifies() {
    let addr = make_srs_address("secret", 20_000, "example.com", "user");
    assert_eq!(
        try_unwrap_at(&addr, &cfg(&[], 21), Some(20_000)),
        SrsUnwrap::InvalidHash
    );
}

#[test]
fn reordered_or_added_secrets_keep_the_result() {
    let addr = make_srs_address("b", 20_000, "example.com", "user");
    let stale = make_srs_address("b", 19_000, "example.com", "user");
    let forged = make_srs_address("z", 20_000, "example.com", "user");
    for (one, other) in [
        (cfg(&["a", "b"], 21), cfg(&["b", "a"], 21)),
        (cfg(&["b"], 21), cfg(&["c", "b", "d"], 21)),
    ] {
        for a in [&addr, &stale] {
            assert_eq!(
                try_unwrap_at(a, &one, Some(20_010)),
                try_unwrap_at(a, &other, Some(20_010))
            );
        }
    }
    assert_eq!(try_unwrap_at(&forged, &cfg(&["a", "b"], 21), Some(20_010)), SrsUnwrap::InvalidHash);
    assert_eq!(try_unwrap_at(&forged, &cfg(&["b", "a"], 21), Some(20_010)), SrsUnwrap::InvalidHash);
}
