use rspf::config::{
    Config, ConfigError, ListenAddr, ListenAddrParseError, RejectPolicy, ServerConfig,
    SocketAddress,
};
use rspf::config::load::validate_placeholders;
use rspf::config::model::{
    default_lookup_timeout_secs, default_max_lookups, default_srs_max_age_days,
    default_void_limit,
};

fn config_listening() -> Config {
    Config::new(ServerConfig {
        listen: vec![ListenAddr::parse("tcp:127.0.0.1:10045").unwrap()],
        test_only: false,
    })
}

#[test]
fn loads_minimal_valid_config() {
    let config = config_listening();
    assert!(config.validate().is_ok());
    assert_eq!(config.server.listen.len(), 1);
    assert_eq!(config.spf.void_limit, 2);
}

#[test]
fn rejects_empty_listen_list() {
    let config = Config::new(ServerConfig {
        listen: vec![],
        test_only: false,
    });
    assert!(matches!(
        config.validate().unwrap_err(),
        ConfigError::NoListenAddresses
    ));
}

#[test]
fn rejects_srs_enabled_without_secrets() {
    let mut config = config_listening();
    config.srs.enabled = true;
    assert!(matches!(
        config.validate().unwrap_err(),
        ConfigError::SrsEnabledWithoutSecrets
    ));
}

#[test]
fn rejects_bad_override_record() {
    let mut config = config_listening();
    config.overrides = vec![("example.com".to_string(), "not an spf record".to_string())];
    assert!(matches!(
        config.validate().unwrap_err(),
        ConfigError::InvalidOverrideRecord { domain, .. } if domain == "example.com"
    ));
}

#[test]
fn accepts_valid_override_record() {
    let mut config = config_listening();
    config.overrides = vec![(
        "example.com".to_string(),
        "v=spf1 ip4:192.0.2.0/24 -all".to_string(),
    )];
    assert!(config.validate().is_ok());
    let record = config
        .overrides
        .iter()
        .find(|(d, _)| d == "example.com")
        .map(|(_, r)| r.as_str());
    assert_eq!(record.unwrap(), "v=spf1 ip4:192.0.2.0/24 -all");
}

#[test]
fn rejects_override_record_with_v_spf1_prefix_but_bad_syntax() {
    let mut config = config_listening();
    config.overrides = vec![(
        "example.com".to_string(),
        "v=spf1 this-is-not-valid-all".to_string(),
    )];
    assert!(matches!(
        config.validate().unwrap_err(),
        ConfigError::InvalidOverrideRecord { domain, .. } if domain == "example.com"
    ));
}

#[test]
fn rejects_unknown_message_placeholder() {
    let mut config = config_listening();
    config.messages.fail = "550 5.7.1 {bogus}".to_string();
    assert!(matches!(
        config.validate().unwrap_err(),
        ConfigError::UnknownMessagePlaceholder { name, placeholder }
            if name == "fail" && placeholder == "bogus"
    ));
}

#[test]
fn accepts_known_message_placeholders() {
    let mut config = config_listening();
    config.messages.fail =
        "550 5.7.1 {sender} not allowed from {ip} for {recipient} ({helo}) [{result}]".to_string();
    assert!(config.validate().is_ok());
}

#[test]
fn parses_tcp_listen_addr() {
    assert_eq!(
        "tcp:127.0.0.1:10045".parse::<ListenAddr>().unwrap(),
        ListenAddr::Tcp(SocketAddress::parse("127.0.0.1:10045").unwrap())
    );
}

#[test]
fn parses_unix_listen_addr() {
    assert_eq!(
        "unix:/run/rspf/policy.sock".parse::<ListenAddr>().unwrap(),
        ListenAddr::Unix("/run/rspf/policy.sock".to_string())
    );
}

#[test]
fn rejects_missing_scheme() {
    assert_eq!(
        "127.0.0.1:10045".parse::<ListenAddr>().unwrap_err(),
        ListenAddrParseError::MissingScheme("127.0.0.1:10045".to_string())
    );
}

#[test]
fn rejects_bad_tcp_addr() {
    assert!(matches!(
        "tcp:not-an-addr".parse::<ListenAddr>().unwrap_err(),
        ListenAddrParseError::InvalidTcp(_, _)
    ));
}

#[test]
fn rejects_empty_unix_path() {
    assert_eq!(
        "unix:".parse::<ListenAddr>().unwrap_err(),
        ListenAddrParseError::EmptyUnixPath
    );
}

#[test]
fn default_is_fail() {
    assert_eq!(RejectPolicy::default(), RejectPolicy::Fail);
}

// --- further scenarios ---

#[test]
fn defaults_of_the_spf_and_srs_sections() {
    assert_eq!(default_lookup_timeout_secs(), 20);
    assert_eq!(default_void_limit(), 2);
    assert_eq!(default_max_lookups(), 10);
    assert_eq!(default_srs_max_age_days(), 21);
}

#[test]
fn srs_with_secrets_validates() {
    let mut config = config_listening();
    config.srs.enabled = true;
    config.srs.secrets = vec!["s3cret".to_string()];
    assert!(config.validate().is_ok());
}

#[test]
fn empty_listen_list_is_reported_before_srs() {
    let mut config = Config::new(ServerConfig {
        listen: vec![],
        test_only: false,
    });
    config.srs.enabled = true;
    assert!(matches!(
        config.validate().unwrap_err(),
        ConfigError::NoListenAddresses
    ));
}

#[test]
fn first_bad_template_in_order_is_reported() {
    let mut config = config_listening();
    config.messages.temperror = "{late}".to_string();
    config.messages.softfail = "{early}".to_string();
    assert!(matches!(
        config.validate().unwrap_err(),
        ConfigError::UnknownMessagePlaceholder { name, placeholder }
            if name == "softfail" && placeholder == "early"
    ));
}

#[test]
fn unclosed_brace_ends_the_placeholder_scan() {
    assert!(validate_placeholders("fail", "550 {sender} and {unclosed").is_ok());
    assert!(validate_placeholders("fail", "550 } {ip}").is_ok());
    assert!(matches!(
        validate_placeholders("neutral", "{ip}{x}").unwrap_err(),
        ConfigError::UnknownMessagePlaceholder { name, placeholder }
            if name == "neutral" && placeholder == "x"
    ));
    assert!(matches!(
        validate_placeholders("none", "a {} b").unwrap_err(),
        ConfigError::UnknownMessagePlaceholder { placeholder, .. } if placeholder.is_empty()
    ));
}

#[test]
fn parses_ipv6_listen_addr_with_scope() {
    let addr = ListenAddr::parse("tcp:[fe80::1%3]:25").unwrap();
    assert_eq!(
        addr,
        ListenAddr::Tcp(SocketAddress::V6 { ip: 0xfe80_0000_0000_0000_0000_0000_0000_0001, port: 25, scope_id: 3 })
    );
    assert_eq!(addr.to_string(), "tcp:[fe80::1%3]:25");
}

#[test]
fn bad_tcp_addr_reports_the_text_and_reason() {
    assert_eq!(
        ListenAddr::parse("tcp:127.0.0.1:99999").unwrap_err(),
        ListenAddrParseError::InvalidTcp(
            "127.0.0.1:99999".to_string(),
            "invalid socket address syntax".to_string()
        )
    );
}

#[test]
fn listen_addr_text_round_trips() {
    for text in ["tcp:127.0.0.1:10045", "unix:/run/rspf/policy.sock", "tcp:[2001:db8::1]:8080"] {
        assert_eq!(ListenAddr::parse(text).unwrap().to_string(), text);
    }
}

#[test]
fn socket_address_grammar() {
    let accepted: &[(&str, SocketAddress, &str)] = &[
        ("127.0.0.1:10045", SocketAddress::V4 { ip: 0x7f00_0001, port: 10045 }, "127.0.0.1:10045"),
        ("127.0.0.1:0", SocketAddress::V4 { ip: 0x7f00_0001, port: 0 }, "127.0.0.1:0"),
        ("127.0.0.1:65535", SocketAddress::V4 { ip: 0x7f00_0001, port: 65535 }, "127.0.0.1:65535"),
        ("127.0.0.1:0080", SocketAddress::V4 { ip: 0x7f00_0001, port: 80 }, "127.0.0.1:80"),
        ("[::1]:25", SocketAddress::V6 { ip: 1, port: 25, scope_id: 0 }, "[::1]:25"),
        (
            "[::1%4294967295]:25",
            SocketAddress::V6 { ip: 1, port: 25, scope_id: 4294967295 },
            "[::1%4294967295]:25",
        ),
        ("[::1%0]:25", SocketAddress::V6 { ip: 1, port: 25, scope_id: 0 }, "[::1]:25"),
        (
            "[::ffff:1.2.3.4]:25",
            SocketAddress::V6 { ip: 0xffff_0102_0304, port: 25, scope_id: 0 },
            "[::ffff:1.2.3.4]:25",
        ),
    ];
    for (text, expected, shown) in accepted {
        let a = SocketAddress::parse(text).unwrap();
        assert_eq!(a, *expected, "{text}");
        assert_eq!(a.to_string(), *shown, "{text}");
    }
    let refused = [
        "127.0.0.1:65536",
        "127.0.0.1:",
        "127.0.0.1",
        ":80",
        "[::1%4294967296]:25",
        "[::1%]:25",
        "[::1]",
        "[::1]:",
        "[1.2.3.4]:25",
        "1.2.3.4:5:6",
        "[::1]x:25",
        "localhost:25",
        "::1:25",
        "1.2.3.4:+5",
    ];
    for text in refused {
        assert_eq!(SocketAddress::parse(text), None, "{text}");
    }
}

#[test]
fn default_message_templates_validate() {
    let m = rspf::config::model::MessageTemplates::default();
    for (name, t) in [
        ("fail", &m.fail),
        ("softfail", &m.softfail),
        ("neutral", &m.neutral),
        ("none", &m.none),
        ("permerror", &m.permerror),
        ("temperror", &m.temperror),
    ] {
        assert!(validate_placeholders(name, t).is_ok());
    }
    assert!(m.fail.starts_with("550 5.7.1 "));
    assert!(m.none.starts_with("550 5.7.1 "));
    assert!(m.temperror.starts_with("451 4.7.1 "));
}

#[test]
fn example_toml_parses_and_validates() {
    let table: toml::Table = rspf::config::EXAMPLE_TOML.parse().expect("example config must parse");
    let section = |name: &str| table.get(name).and_then(|v| v.as_table()).unwrap();
    let listen: Vec<ListenAddr> = section("server")["listen"]
        .as_array()
        .unwrap()
        .iter()
        .map(|v| ListenAddr::parse(v.as_str().unwrap()).unwrap())
        .collect();
    let mut config = Config::new(ServerConfig { listen, test_only: false });
    let srs = section("srs");
    config.srs.enabled = srs["enabled"].as_bool().unwrap();
    config.srs.secrets =
        srs["secrets"].as_array().unwrap().iter().map(|v| v.as_str().unwrap().to_string()).collect();
    config.srs.max_age_days = srs["max_age_days"].as_integer().unwrap() as u32;
    config.overrides = section("overrides")
        .iter()
        .map(|(d, r)| (d.clone(), r.as_str().unwrap().to_string()))
        .collect();
    let messages = section("messages");
    let text = |name: &str| messages[name].as_str().unwrap().to_string();
    config.messages.fail = text("fail");
    config.messages.softfail = text("softfail");
    config.messages.neutral = text("neutral");
    config.messages.none = text("none");
    config.messages.permerror = text("permerror");
    config.messages.temperror = text("temperror");
    config.validate().expect("example config must validate");
    for (name, value) in section("spf") {
        let expected = match name.as_str() {
            "lookup_timeout_secs" => default_lookup_timeout_secs() as i64,
            "void_limit" => default_void_limit() as i64,
            "max_lookups" => default_max_lookups() as i64,
            other => panic!("unexpected [spf] key {other}"),
        };
        assert_eq!(value.as_integer(), Some(expected));
    }
    assert_eq!(srs["max_age_days"].as_integer(), Some(default_srs_max_age_days() as i64));
}
