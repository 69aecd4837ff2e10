use rspf::config::{Config, ListenAddr, ServerConfig, WhitelistConfig};
use rspf::net::{Cidr, CidrSet, IpAddress};
use rspf::proto::PolicyRequest;
use rspf::server::{plan_request, plan_request_at, should_skip, RequestPlan};
use rspf::srs::compute_hash;
use rspf::whitelist::Whitelist;

fn config() -> Config {
    Config::new(ServerConfig {
        listen: vec![ListenAddr::parse("tcp:127.0.0.1:10045").unwrap()],
        test_only: false,
    })
}

fn request(lines: &[&str]) -> PolicyRequest {
    let lines: Vec<String> = lines.iter().map(|s| s.to_string()).collect();
    PolicyRequest::from_lines(&lines).unwrap()
}

fn basic_request() -> PolicyRequest {
    request(&[
        "request=smtpd_access_policy",
        "client_address=192.0.2.10",
        "helo_name=mail.example.com",
        "sender=user@example.com",
        "recipient=postmaster@ourdomain.com",
    ])
}

fn ip(s: &str) -> IpAddress {
    IpAddress::parse(s).unwrap()
}

#[test]
fn request_without_sender_is_answered_dunno() {
    let req = request(&["request=smtpd_access_policy", "client_address=192.0.2.10"]);
    let plan = plan_request(&config(), &Whitelist::default(), &req);
    assert!(matches!(plan, RequestPlan::Dunno { reason: None }));
}

#[test]
fn skip_addresses_bypass_evaluation() {
    let mut cfg = config();
    cfg.skip.addresses = CidrSet::new(vec![Cidr::parse("192.0.2.0/24").unwrap()]);
    let plan = plan_request(&cfg, &Whitelist::default(), &basic_request());
    assert!(matches!(
        plan,
        RequestPlan::Dunno { reason: Some("client_address matches skip.addresses") }
    ));
}

#[test]
fn ordinary_request_is_evaluated() {
    let plan = plan_request_at(&config(), &Whitelist::default(), &basic_request(), Some(20_000));
    match plan {
        RequestPlan::Evaluate { client_ip, helo, sender, recipient } => {
            assert_eq!(client_ip, ip("192.0.2.10"));
            assert_eq!(helo, "mail.example.com");
            assert_eq!(sender, "user@example.com");
            assert_eq!(recipient, "postmaster@ourdomain.com");
        }
        other => panic!("unexpected {other:?}"),
    }
}

#[test]
fn invalid_client_address_is_answered_dunno() {
    let req = request(&[
        "client_address=not-an-ip",
        "helo_name=mail.example.com",
        "sender=user@example.com",
    ]);
    let plan = plan_request_at(&config(), &Whitelist::default(), &req, Some(0));
    assert!(matches!(plan, RequestPlan::Dunno { reason: None }));
}

#[test]
fn skip_reasons_in_order() {
    let mut cfg = config();
    let req = basic_request();
    assert_eq!(
        should_skip(&cfg, &Whitelist::default(), &req, ip("192.0.2.10"), "mail.example.com", "user@example.com"),
        None
    );
    cfg.relay.trusted_relays = CidrSet::new(vec![Cidr::parse("192.0.2.10/32").unwrap()]);
    assert_eq!(
        should_skip(&cfg, &Whitelist::default(), &req, ip("192.0.2.10"), "mail.example.com", "user@example.com"),
        Some("client_address matches relay.trusted_relays")
    );
    cfg.skip.addresses = CidrSet::new(vec![Cidr::parse("192.0.2.0/24").unwrap()]);
    assert_eq!(
        should_skip(&cfg, &Whitelist::default(), &req, ip("192.0.2.10"), "mail.example.com", "user@example.com"),
        Some("client_address matches skip.addresses")
    );
}

#[test]
fn sasl_authenticated_clients_skip_when_exempt() {
    let mut cfg = config();
    let req = request(&[
        "client_address=192.0.2.10",
        "helo_name=mail.example.com",
        "sender=user@example.com",
        "sasl_username=alice",
    ]);
    assert_eq!(
        should_skip(&cfg, &Whitelist::default(), &req, ip("192.0.2.10"), "mail.example.com", "user@example.com"),
        None
    );
    cfg.relay.exempt_sasl_authenticated = true;
    assert_eq!(
        should_skip(&cfg, &Whitelist::default(), &req, ip("192.0.2.10"), "mail.example.com", "user@example.com"),
        Some("sasl_username present and relay.exempt_sasl_authenticated is set")
    );
    let empty = request(&["client_address=192.0.2.10", "sasl_username="]);
    assert_eq!(
        should_skip(&cfg, &Whitelist::default(), &empty, ip("192.0.2.10"), "mail.example.com", "user@example.com"),
        None
    );
}

#[test]
fn whitelist_matches_use_the_sender_domain() {
    let cfg = config();
    let wl_cfg = WhitelistConfig {
        domains: vec!["partner.org".to_string()],
        ..Default::default()
    };
    let wl = Whitelist::load(&wl_cfg, Vec::new()).unwrap();
    assert_eq!(
        should_skip(&cfg, &wl, &basic_request(), ip("192.0.2.10"), "mx.other.net", "a@b@mail.partner.org"),
        Some("whitelist.domains")
    );
    assert_eq!(
        should_skip(&cfg, &wl, &basic_request(), ip("192.0.2.10"), "mx.other.net", "partner.org"),
        None
    );
}

#[test]
fn verified_srs_sender_is_evaluated_unwrapped() {
    let mut cfg = config();
    cfg.srs.enabled = true;
    cfg.srs.secrets = vec!["secret".to_string()];
    cfg.srs.max_age_days = 21;
    let hash = compute_hash("secret", "IO", "example.com", "user").unwrap();
    let sender = format!("SRS0={hash}=IO=example.com=user@relay.example.net");
    let req = request(&[
        "client_address=192.0.2.10",
        "helo_name=relay.example.net",
        &format!("sender={sender}"),
    ]);
    // "IO" encodes day 18*32+24 = 600 of the cycle.
    match plan_request_at(&cfg, &Whitelist::default(), &req, Some(1024 * 19 + 600)) {
        RequestPlan::Evaluate { sender, recipient, .. } => {
            assert_eq!(sender, "user@example.com");
            assert_eq!(recipient, "");
        }
        other => panic!("unexpected {other:?}"),
    }
    match plan_request_at(&cfg, &Whitelist::default(), &req, Some(1024 * 19 + 700)) {
        RequestPlan::Evaluate { sender: evaluated, .. } => assert_eq!(evaluated, sender),
        other => panic!("unexpected {other:?}"),
    }
}
