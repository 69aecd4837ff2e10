use rspf::config::WhitelistConfig;
use rspf::net::{Cidr, CidrSet, IpAddress};
use rspf::whitelist::{matches_suffix, Whitelist, WhitelistError, WhitelistReason};

fn ip(s: &str) -> IpAddress {
    IpAddress::parse(s).unwrap()
}

fn cfg_with_ips(ips: &[&str]) -> WhitelistConfig {
    WhitelistConfig {
        ips: CidrSet::new(ips.iter().map(|s| Cidr::parse(s).unwrap()).collect()),
        ..Default::default()
    }
}

fn load_inline(cfg: &WhitelistConfig) -> Whitelist {
    Whitelist::load(cfg, Vec::new()).unwrap()
}

fn cfg_with_file(path: &str) -> WhitelistConfig {
    WhitelistConfig {
        files: vec![path.to_string()],
        ..Default::default()
    }
}

#[test]
fn matches_whitelisted_ip() {
    let wl = load_inline(&cfg_with_ips(&["192.0.2.0/24"]));
    assert_eq!(
        wl.matches(ip("192.0.2.5"), "mail.example.com", None, None),
        Some(WhitelistReason::Ip)
    );
}

#[test]
fn does_not_match_unlisted_ip() {
    let wl = load_inline(&cfg_with_ips(&["192.0.2.0/24"]));
    assert_eq!(
        wl.matches(ip("203.0.113.5"), "mail.example.com", None, None),
        None
    );
}

#[test]
fn matches_helo_name_case_insensitively() {
    let cfg = WhitelistConfig {
        helo_names: vec!["Mail.Example.Com".to_string()],
        ..Default::default()
    };
    let wl = load_inline(&cfg);
    assert_eq!(
        wl.matches(ip("203.0.113.5"), "mail.example.com", None, None),
        Some(WhitelistReason::Helo)
    );
}

#[test]
fn matches_domain_via_helo_suffix() {
    let cfg = WhitelistConfig {
        domains: vec!["example.com".to_string()],
        ..Default::default()
    };
    let wl = load_inline(&cfg);
    assert_eq!(
        wl.matches(ip("203.0.113.5"), "mail.example.com", None, None),
        Some(WhitelistReason::Domain)
    );
}

#[test]
fn matches_domain_via_mail_from_domain() {
    let cfg = WhitelistConfig {
        domains: vec!["example.com".to_string()],
        ..Default::default()
    };
    let wl = load_inline(&cfg);
    assert_eq!(
        wl.matches(ip("203.0.113.5"), "other.net", Some("sub.example.com"), None),
        Some(WhitelistReason::Domain)
    );
}

#[test]
fn domain_whitelist_does_not_match_lookalike_domain() {
    let cfg = WhitelistConfig {
        domains: vec!["example.com".to_string()],
        ..Default::default()
    };
    let wl = load_inline(&cfg);
    assert_eq!(
        wl.matches(ip("203.0.113.5"), "mail.notexample.com", None, None),
        None
    );
}

#[test]
fn matches_ptr_domain_suffix() {
    let cfg = WhitelistConfig {
        domains_ptr: vec!["trusted.net".to_string()],
        ..Default::default()
    };
    let wl = load_inline(&cfg);
    assert_eq!(
        wl.matches(
            ip("203.0.113.5"),
            "mail.example.com",
            None,
            Some("mx1.trusted.net")
        ),
        Some(WhitelistReason::DomainPtr)
    );
}

#[test]
fn loads_entries_from_file() {
    let text = "# a comment\nip:198.51.100.0/24\nhelo:relay.partner.com\ndomain:partner.com\nptr:partner.com\n\n";
    let cfg = cfg_with_file("/etc/rspf/whitelist.txt");
    let wl = Whitelist::load(&cfg, vec![Ok(text.to_string())]).unwrap();

    assert_eq!(
        wl.matches(ip("198.51.100.1"), "x", None, None),
        Some(WhitelistReason::Ip)
    );
    assert_eq!(
        wl.matches(ip("203.0.113.1"), "relay.partner.com", None, None),
        Some(WhitelistReason::Helo)
    );
    assert_eq!(
        wl.matches(ip("203.0.113.1"), "mail.partner.com", None, None),
        Some(WhitelistReason::Domain)
    );
    assert_eq!(
        wl.matches(ip("203.0.113.1"), "x", None, Some("mx.partner.com")),
        Some(WhitelistReason::DomainPtr)
    );
}

#[test]
fn rejects_unrecognized_file_entry() {
    let cfg = cfg_with_file("/etc/rspf/whitelist.txt");
    assert!(matches!(
        Whitelist::load(&cfg, vec![Ok("bogus:value\n".to_string())]).unwrap_err(),
        WhitelistError::UnrecognizedEntry { .. }
    ));
}

#[test]
fn rejects_invalid_cidr_in_file() {
    let cfg = cfg_with_file("/etc/rspf/whitelist.txt");
    assert!(matches!(
        Whitelist::load(&cfg, vec![Ok("ip:not-a-cidr\n".to_string())]).unwrap_err(),
        WhitelistError::InvalidCidr { .. }
    ));
}

// --- further scenarios ---

#[test]
fn errors_name_the_file_line_and_entry() {
    let cfg = cfg_with_file("wl.txt");
    match Whitelist::load(&cfg, vec![Ok("# c\n\n  helo:a.b  \nnonsense\n".to_string())]) {
        Err(WhitelistError::UnrecognizedEntry { path, line, entry }) => {
            assert_eq!(path, "wl.txt");
            assert_eq!(line, 4);
            assert_eq!(entry, "nonsense");
        }
        other => panic!("unexpected {other:?}"),
    }
    match Whitelist::load(&cfg, vec![Ok("ip: 10.0.0.0/33 \n".to_string())]) {
        Err(WhitelistError::InvalidCidr { path, line, value, .. }) => {
            assert_eq!(path, "wl.txt");
            assert_eq!(line, 1);
            assert_eq!(value, "10.0.0.0/33");
        }
        other => panic!("unexpected {other:?}"),
    }
}

#[test]
fn unreadable_file_is_a_read_error() {
    let cfg = cfg_with_file("missing.txt");
    let err = std::io::Error::new(std::io::ErrorKind::NotFound, "gone");
    match Whitelist::load(&cfg, vec![Err(err)]) {
        Err(WhitelistError::Read { path, .. }) => assert_eq!(path, "missing.txt"),
        other => panic!("unexpected {other:?}"),
    }
}

#[test]
fn file_values_are_trimmed_and_lower_cased() {
    let cfg = cfg_with_file("wl.txt");
    let wl = Whitelist::load(&cfg, vec![Ok("domain:  Partner.COM \r\n".to_string())]).unwrap();
    assert_eq!(
        wl.matches(ip("203.0.113.1"), "MX.partner.com", None, None),
        Some(WhitelistReason::Domain)
    );
}

#[test]
fn matching_order_prefers_ip_then_helo() {
    let cfg = WhitelistConfig {
        ips: CidrSet::new(vec![Cidr::parse("10.0.0.0/8").unwrap()]),
        helo_names: vec!["mx.example.com".to_string()],
        domains: vec!["example.com".to_string()],
        ..Default::default()
    };
    let wl = load_inline(&cfg);
    assert_eq!(
        wl.matches(ip("10.1.2.3"), "mx.example.com", None, None),
        Some(WhitelistReason::Ip)
    );
    assert_eq!(
        wl.matches(ip("192.0.2.1"), "MX.Example.Com", None, None),
        Some(WhitelistReason::Helo)
    );
}

#[test]
fn suffix_matching_rules() {
    assert!(matches_suffix("example.com", "example.com"));
    assert!(matches_suffix("Mail.Example.COM", "example.com"));
    assert!(!matches_suffix("notexample.com", "example.com"));
    assert!(!matches_suffix("example.com.evil", "example.com"));
    assert!(!matches_suffix("com", "example.com"));
    assert!(matches_suffix("mail.example.com", "Example.com"));
    assert!(matches_suffix("EXAMPLE.com", "example.COM"));
    assert!(!matches_suffix("mail.notexample.com", "Example.com"));
}

#[test]
fn default_whitelist_matches_nothing() {
    let wl = Whitelist::default();
    assert_eq!(wl.matches(ip("10.0.0.1"), "x", Some("y"), Some("z")), None);
    let copy = wl.clone();
    assert_eq!(copy.matches(ip("10.0.0.1"), "x", None, None), None);
}
