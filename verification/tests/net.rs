use rspf::net::{Cidr, CidrSet, IpAddress};

fn ip(s: &str) -> IpAddress {
    IpAddress::parse(s).unwrap()
}

fn set(nets: &[&str]) -> CidrSet {
    CidrSet::new(nets.iter().map(|s| Cidr::parse(s).unwrap()).collect())
}

#[test]
fn matches_ipv4_cidr() {
    let s = set(&["192.0.2.0/24"]);
    assert!(s.contains(ip("192.0.2.10")));
    assert!(!s.contains(ip("192.0.3.10")));
}

#[test]
fn matches_exact_host_slash_32() {
    let s = set(&["192.0.2.10/32"]);
    assert!(s.contains(ip("192.0.2.10")));
    assert!(!s.contains(ip("192.0.2.11")));
}

#[test]
fn matches_ipv6_cidr() {
    let s = set(&["2001:db8::/32"]);
    assert!(s.contains(ip("2001:db8::1")));
    assert!(!s.contains(ip("2001:db9::1")));
}

#[test]
fn slash_zero_matches_everything_in_family() {
    let s = set(&["0.0.0.0/0"]);
    assert!(s.contains(ip("8.8.8.8")));
    assert!(!s.contains(ip("::1")));
}

#[test]
fn empty_set_matches_nothing() {
    let s = CidrSet::default();
    assert!(s.is_empty());
    assert!(!s.contains(ip("127.0.0.1")));
}

// --- further scenarios ---

#[test]
fn cidr_keeps_the_written_address_and_prefix() {
    let net = Cidr::parse("192.0.2.77/24").unwrap();
    assert_eq!(net.addr(), ip("192.0.2.77"));
    assert_eq!(net.prefix_len(), 24);
    assert!(net.contains(ip("192.0.2.1")));
    assert!(Cidr::parse("192.0.2.0/33").is_err());
    assert!(Cidr::parse("not-a-cidr").is_err());
    assert!(Cidr::new(ip("::1"), 129).is_none());
    assert!(Cidr::new(ip("::1"), 128).is_some());
}

#[test]
fn ipv6_zero_prefix_excludes_ipv4() {
    let s = set(&["::/0"]);
    assert!(s.contains(ip("2001:db8::1")));
    assert!(!s.contains(ip("10.0.0.1")));
}

#[test]
fn extend_and_push_append_networks() {
    let mut s = CidrSet::empty();
    s.push(Cidr::parse("10.0.0.0/8").unwrap());
    s.extend(vec![Cidr::parse("192.168.0.0/16").unwrap()]);
    assert_eq!(s.iter().len(), 2);
    assert!(s.contains(ip("192.168.1.1")));
    assert!(s.contains(ip("10.1.1.1")));
    let copy = s.clone();
    assert!(copy.contains(ip("10.1.1.1")));
}

const ACCEPTED: &[(&str, IpAddress, &str)] = &[
    ("0.0.0.0", IpAddress::V4(0x0), "0.0.0.0"),
    ("127.0.0.1", IpAddress::V4(0x7f000001), "127.0.0.1"),
    ("255.255.255.255", IpAddress::V4(0xffffffff), "255.255.255.255"),
    ("1.2.3.0", IpAddress::V4(0x1020300), "1.2.3.0"),
    ("::", IpAddress::V6(0x0), "::"),
    ("::1", IpAddress::V6(0x1), "::1"),
    ("1::", IpAddress::V6(0x10000000000000000000000000000), "1::"),
    ("1::2", IpAddress::V6(0x10000000000000000000000000002), "1::2"),
    ("1:2:3:4:5:6:7:8", IpAddress::V6(0x10002000300040005000600070008), "1:2:3:4:5:6:7:8"),
    ("1:2:3:4:5:6:7::", IpAddress::V6(0x10002000300040005000600070000), "1:2:3:4:5:6:7:0"),
    ("::2:3:4:5:6:7:8", IpAddress::V6(0x2000300040005000600070008), "0:2:3:4:5:6:7:8"),
    ("1:2:3::5:6:7:8", IpAddress::V6(0x10002000300000005000600070008), "1:2:3:0:5:6:7:8"),
    ("2001:db8::1", IpAddress::V6(0x20010db8000000000000000000000001), "2001:db8::1"),
    ("2001:DB8::ABCD", IpAddress::V6(0x20010db800000000000000000000abcd), "2001:db8::abcd"),
    ("2001:db8:0:0:0:0:2:1", IpAddress::V6(0x20010db8000000000000000000020001), "2001:db8::2:1"),
    ("2001:0db8::0001", IpAddress::V6(0x20010db8000000000000000000000001), "2001:db8::1"),
    ("::ffff:1.2.3.4", IpAddress::V6(0xffff01020304), "::ffff:1.2.3.4"),
    ("::1.2.3.4", IpAddress::V6(0x1020304), "::102:304"),
    ("1:2:3:4:5:6:1.2.3.4", IpAddress::V6(0x10002000300040005000601020304), "1:2:3:4:5:6:102:304"),
    ("1:2:3:4:5::1.2.3.4", IpAddress::V6(0x10002000300040005000001020304), "1:2:3:4:5:0:102:304"),
    ("::ffff:0.0.0.0", IpAddress::V6(0xffff00000000), "::ffff:0.0.0.0"),
    ("0:0:0:0:0:ffff:102:304", IpAddress::V6(0xffff01020304), "::ffff:1.2.3.4"),
    ("1:0:0:1:0:0:0:1", IpAddress::V6(0x10000000000010000000000000001), "1:0:0:1::1"),
    ("1:0:0:0:1:0:0:1", IpAddress::V6(0x10000000000000001000000000001), "1::1:0:0:1"),
    ("0:0:1:0:0:0:0:0", IpAddress::V6(0x100000000000000000000), "0:0:1::"),
];

const REFUSED: &[&str] = &[
    "256.0.0.1",
    "1.2.3",
    "1.2.3.4.5",
    "01.2.3.4",
    "1.2.3.04",
    "1.2.3.",
    ".1.2.3",
    "1..2.3",
    "1.2.3.4 ",
    " 1.2.3.4",
    "1234.1.1.1",
    "1.2.3.-4",
    "+1.2.3.4",
    ":::",
    "1:::2",
    "::1::",
    "1:2:3:4:5:6:7:8:9",
    "1:2:3:4:5:6:7",
    "1:2:3:4:5:6:7:8::",
    "1:2:3:4::5:6:7:8",
    "12345::",
    "::12345",
    "g::1",
    ":1::2",
    "1::2:",
    "1:2:3:4:5:1.2.3.4",
    "1:2:3:4:5:6:7:1.2.3.4",
    "1:2:3:4:5:6::1.2.3.4",
    "1.2.3.4::",
    "::1.2.3.4:5",
    "::1.2.3.256",
    "::1.2.3.04",
    "::1.2.3",
    "fe80::1%3",
    "",
    ":",
    "[::1]",
    "１.2.3.4",
];

#[test]
fn accepted_addresses_and_their_text() {
    for (text, value, shown) in ACCEPTED {
        assert_eq!(IpAddress::parse(text), Some(*value), "{text:?}");
        assert_eq!(value.to_string(), *shown, "{text:?}");
        assert_eq!(IpAddress::parse(shown), Some(*value), "{shown:?}");
    }
}

#[test]
fn refused_addresses() {
    for text in REFUSED {
        assert_eq!(IpAddress::parse(text), None, "{text:?}");
    }
}

#[test]
fn ipv4_value_is_most_significant_octet_first() {
    assert_eq!(ip("192.0.2.1"), IpAddress::V4(0xc000_0201));
    assert_eq!(ip("2001:db8::1"), IpAddress::V6(0x2001_0db8_0000_0000_0000_0000_0000_0001));
}

#[test]
fn text_round_trips_through_parse() {
    for s in ["192.0.2.1", "2001:db8::1", "::", "::ffff:1.2.3.4", "1:0:0:1::1"] {
        assert_eq!(ip(s).to_string(), s);
        assert_eq!(ip(&ip(s).to_string()), ip(s));
    }
}
