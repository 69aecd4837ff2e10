//! TCP socket addresses: reading them with the grammar of std's
//! `SocketAddr` parser, and writing them as std's `Display` does.
use vstd::prelude::*;

use super::ip::{ip_text, IpAddress};
use super::parse::{
    digits_value, groups_to_u128, groups_value, ipv4_field, ipv4_value, ipv6_field, ipv6_groups,
    is_dec_digit,
};
use crate::text::{
    chars_of, dec_text, find_char, index_of, push_dec, split_once, string_of, sub_chars,
};

verus! {

/// A TCP socket address, as std's `SocketAddr`: an IPv4 address and a
/// port, or an IPv6 address, a port and a scope id (zero where none is
/// given).
#[derive(Debug, Clone, Copy, PartialEq, Eq, Structural)]
pub enum SocketAddress {
    V4 { ip: u32, port: u16 },
    V6 { ip: u128, port: u16, scope_id: u32 },
}

/// The IP address of a socket address.
pub open spec fn socket_ip(a: SocketAddress) -> IpAddress {
    match a {
        SocketAddress::V4 { ip, .. } => IpAddress::V4(ip),
        SocketAddress::V6 { ip, .. } => IpAddress::V6(ip),
    }
}

/// The port of a socket address.
pub open spec fn socket_port(a: SocketAddress) -> u16 {
    match a {
        SocketAddress::V4 { port, .. } => port,
        SocketAddress::V6 { port, .. } => port,
    }
}

/// The value of a decimal number of any length, if it fits below `bound`.
pub open spec fn dec_number(p: Seq<char>, bound: nat) -> Option<nat> {
    if p.len() >= 1 && (forall|i: int| 0 <= i < p.len() ==> is_dec_digit(#[trigger] p[i]))
        && digits_value(p, 10) < bound {
        Some(digits_value(p, 10))
    } else {
        None
    }
}

/// The socket address that `s` stands for, as std's `SocketAddr` parser
/// reads it: `a.b.c.d:port`, or `[ipv6]:port` with an optional `%scope`
/// after the IPv6 address.
pub open spec fn socket_parse(s: Seq<char>) -> Option<SocketAddress> {
    if s.len() > 0 && s[0] == '[' {
        match index_of(s, ']') {
            None => None,
            Some(c) => {
                let inner = s.subrange(1, c);
                let after = s.skip(c + 1);
                let (ip_part, scope) = match split_once(inner, '%') {
                    Some((a, b)) => (a, dec_number(b, 0x1_0000_0000)),
                    None => (inner, Some(0nat)),
                };
                if after.len() >= 1 && after[0] == ':' {
                    match (ipv6_groups(ip_part), scope, dec_number(after.skip(1), 0x10000)) {
                        (Some(g), Some(sc), Some(port)) => Some(
                            SocketAddress::V6 {
                                ip: groups_value(g) as u128,
                                port: port as u16,
                                scope_id: sc as u32,
                            },
                        ),
                        _ => None,
                    }
                } else {
                    None
                }
            },
        }
    } else {
        match split_once(s, ':') {
            Some((a, p)) => match (ipv4_value(a), dec_number(p, 0x10000)) {
                (Some(v), Some(port)) => Some(
                    SocketAddress::V4 { ip: v as u32, port: port as u16 },
                ),
                _ => None,
            },
            None => None,
        }
    }
}

/// The text form of a socket address, as std's `Display` writes it.
pub open spec fn socket_text(a: SocketAddress) -> Seq<char> {
    match a {
        SocketAddress::V4 { ip, port } => ip_text(IpAddress::V4(ip)) + seq![':'] + dec_text(
            port as nat,
        ),
        SocketAddress::V6 { ip, port, scope_id } => seq!['['] + ip_text(IpAddress::V6(ip)) + (
        if scope_id == 0 {
            Seq::<char>::empty()
        } else {
            seq!['%'] + dec_text(scope_id as nat)
        }) + seq![']', ':'] + dec_text(port as nat),
    }
}

/// The value of the decimal number `p`, if it has one below `bound`.
fn dec_number_field(p: &[char], bound: u64) -> (r: Option<u64>)
    requires
        1 <= bound <= 0x1_0000_0000,
    ensures
        r is Some <==> dec_number(p@, bound as nat) is Some,
        r matches Some(x) ==> x == dec_number(p@, bound as nat)->0,
{
    if p.len() == 0 {
        return None;
    }
    let mut val: u64 = 0;
    let mut i: usize = 0;
    while i < p.len()
        invariant
            bound <= 0x1_0000_0000,
            i <= p.len(),
            forall|j: int| 0 <= j < i ==> is_dec_digit(#[trigger] p@[j]),
            val == digits_value(p@.take(i as int), 10),
            val < bound,
        decreases p.len() - i,
    {
        let c = p[i];
        if !('0' <= c && c <= '9') {
            return None;
        }
        let d: u64 = ((c as u32) - ('0' as u32)) as u64;
        assert(p@.take(i + 1).drop_last() =~= p@.take(i as int));
        let next: u64 = val * 10 + d;
        assert(digits_value(p@.take(i + 1), 10) == next);
        if next >= bound {
            proof {
                lemma_digits_value_prefix_le(p@, i + 1);
            }
            return None;
        }
        val = next;
        i = i + 1;
    }
    assert(p@.take(i as int) =~= p@);
    Some(val)
}

/// A longer prefix of decimal digits never has a smaller value.
proof fn lemma_digits_value_prefix_le(p: Seq<char>, n: int)
    requires
        0 <= n <= p.len(),
    ensures
        digits_value(p.take(n), 10) <= digits_value(p, 10),
    decreases p.len() - n,
{
    if n < p.len() {
        lemma_digits_value_prefix_le(p, n + 1);
        assert(p.take(n + 1).drop_last() =~= p.take(n));
    } else {
        assert(p.take(n) =~= p);
    }
}

impl SocketAddress {
    /// Reads a socket address from text, as std's `SocketAddr` parser does.
    pub fn parse(s: &str) -> (r: Option<SocketAddress>)
        ensures
            r == socket_parse(s@),
    {
        let v = chars_of(s);
        if v.len() > 0 && v[0] == '[' {
            let close = match find_char(v.as_slice(), ']') {
                Some(c) => c,
                None => return None,
            };
            assert(close >= 1) by {
                if close == 0 {
                    assert(v@[0] == '[');
                }
            }
            let inner = sub_chars(v.as_slice(), 1, close);
            let after = sub_chars(v.as_slice(), close + 1, v.len());
            assert(inner@ =~= s@.subrange(1, close as int));
            assert(after@ =~= s@.skip(close + 1));
            if after.len() == 0 || after[0] != ':' {
                return None;
            }
            let port_chars = sub_chars(after.as_slice(), 1, after.len());
            assert(port_chars@ =~= after@.skip(1));
            let (ip_chars, scope) = match find_char(inner.as_slice(), '%') {
                Some(k) => {
                    let a = sub_chars(inner.as_slice(), 0, k);
                    let b = sub_chars(inner.as_slice(), k + 1, inner.len());
                    assert(a@ =~= inner@.take(k as int));
                    assert(b@ =~= inner@.skip(k + 1));
                    (a, dec_number_field(b.as_slice(), 0x1_0000_0000))
                },
                None => (inner, Some(0u64)),
            };
            let ip = match ipv6_field(ip_chars.as_slice()) {
                Some(g) => groups_to_u128(&g),
                None => return None,
            };
            let sc = match scope {
                Some(x) => x,
                None => return None,
            };
            let port = match dec_number_field(port_chars.as_slice(), 0x10000) {
                Some(x) => x,
                None => return None,
            };
            Some(SocketAddress::V6 { ip, port: port as u16, scope_id: sc as u32 })
        } else {
            let colon = match find_char(v.as_slice(), ':') {
                Some(c) => c,
                None => return None,
            };
            let a = sub_chars(v.as_slice(), 0, colon);
            let p = sub_chars(v.as_slice(), colon + 1, v.len());
            assert(a@ =~= s@.take(colon as int));
            assert(p@ =~= s@.skip(colon + 1));
            let ip = match ipv4_field(a.as_slice()) {
                Some(x) => x,
                None => return None,
            };
            let port = match dec_number_field(p.as_slice(), 0x10000) {
                Some(x) => x,
                None => return None,
            };
            Some(SocketAddress::V4 { ip, port: port as u16 })
        }
    }

    /// The address written the way std's `Display` writes it.
    pub fn to_string(&self) -> (r: String)
        ensures
            r@ == socket_text(*self),
    {
        let mut out: Vec<char> = Vec::new();
        let port = match *self {
            SocketAddress::V4 { ip, port } => {
                let ipc = chars_of(IpAddress::V4(ip).to_string().as_str());
                crate::text::extend_chars(&mut out, ipc.as_slice());
                out.push(':');
                port
            },
            SocketAddress::V6 { ip, port, scope_id } => {
                out.push('[');
                let ipc = chars_of(IpAddress::V6(ip).to_string().as_str());
                crate::text::extend_chars(&mut out, ipc.as_slice());
                if scope_id != 0 {
                    out.push('%');
                    push_dec(scope_id, &mut out);
                }
                out.push(']');
                out.push(':');
                port
            },
        };
        push_dec(port as u32, &mut out);
        assert(out@ =~= socket_text(*self));
        string_of(out.as_slice())
    }
}

} // verus!
