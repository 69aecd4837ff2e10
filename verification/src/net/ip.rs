//! IP addresses as plain integers, and their canonical text form.
use vstd::prelude::*;

use crate::text::{
    dec_text, extend_chars, hex_text, string_of, u16_hex_chars, u8_dec_chars,
};

verus! {

/// An IPv4 address (32 bits, most significant octet first) or an IPv6
/// address (128 bits, most significant group first).
#[derive(Debug, Clone, Copy, PartialEq, Eq, Structural)]
pub enum IpAddress {
    V4(u32),
    V6(u128),
}

/// Octet `k` (0 = most significant) of an IPv4 address.
pub open spec fn octet(a: u32, k: u32) -> u32 {
    (a >> (24 - 8 * k) as u32) & 0xffu32
}

/// Dotted-quad text of an IPv4 address, e.g. `192.0.2.1`.
pub open spec fn ipv4_text(a: u32) -> Seq<char> {
    dec_text(octet(a, 0) as nat) + seq!['.'] + dec_text(octet(a, 1) as nat) + seq!['.']
        + dec_text(octet(a, 2) as nat) + seq!['.'] + dec_text(octet(a, 3) as nat)
}

/// Group `k` (0 = most significant) of an IPv6 address.
pub open spec fn group(a: u128, k: int) -> u16 {
    ((a >> (112 - 16 * k) as u32) & 0xffffu128) as u16
}

/// The eight 16-bit groups of an IPv6 address.
pub open spec fn groups(a: u128) -> Seq<u16> {
    Seq::new(8, |k: int| group(a, k))
}

/// Hexadecimal groups separated by `:`.
pub open spec fn hex_join(segs: Seq<u16>) -> Seq<char>
    decreases segs.len(),
{
    if segs.len() == 0 {
        seq![]
    } else if segs.len() == 1 {
        hex_text(segs[0] as nat)
    } else {
        hex_join(segs.drop_last()) + seq![':'] + hex_text(segs.last() as nat)
    }
}

/// Scanning the first `n` groups for runs of zero groups: the current run
/// `(start, len)` followed by the first longest run `(start, len)`.
pub open spec fn zero_scan(segs: Seq<u16>, n: int) -> (int, int, int, int)
    decreases n,
{
    if n <= 0 {
        (0, 0, 0, 0)
    } else {
        let (cs, cl, bs, bl) = zero_scan(segs, n - 1);
        if segs[n - 1] == 0 {
            let s = if cl == 0 {
                n - 1
            } else {
                cs
            };
            if cl + 1 > bl {
                (s, cl + 1, s, cl + 1)
            } else {
                (s, cl + 1, bs, bl)
            }
        } else {
            (0, 0, bs, bl)
        }
    }
}

/// Whether an IPv6 address is an IPv4-mapped address (`::ffff:a.b.c.d`).
pub open spec fn is_v4_mapped(a: u128) -> bool {
    (a >> 32u32) == 0xffffu128
}

/// Canonical text of an IPv6 address: IPv4-mapped addresses as
/// `::ffff:a.b.c.d`, otherwise lower-case hexadecimal groups with the
/// first longest run of two or more zero groups written as `::`.
pub open spec fn ipv6_text(a: u128) -> Seq<char> {
    if is_v4_mapped(a) {
        seq![':', ':', 'f', 'f', 'f', 'f', ':'] + ipv4_text((a & 0xffff_ffffu128) as u32)
    } else {
        let segs = groups(a);
        let (cs, cl, bs, bl) = zero_scan(segs, 8);
        if bl > 1 {
            hex_join(segs.take(bs)) + seq![':', ':'] + hex_join(segs.skip(bs + bl))
        } else {
            hex_join(segs)
        }
    }
}

/// The text form of an IP address, as std's `Display` writes it.
pub open spec fn ip_text(ip: IpAddress) -> Seq<char> {
    match ip {
        IpAddress::V4(a) => ipv4_text(a),
        IpAddress::V6(a) => ipv6_text(a),
    }
}

fn octet_exec(a: u32, k: u32) -> (r: u8)
    requires
        k < 4,
    ensures
        r as u32 == octet(a, k),
{
    let x: u32 = (a >> (24 - 8 * k)) & 0xff;
    assert(x < 256) by (bit_vector)
        requires
            x == (a >> (24 - 8 * k) as u32) & 0xffu32,
    ;
    x as u8
}

fn ipv4_chars(a: u32, out: &mut Vec<char>)
    ensures
        final(out)@ == old(out)@ + ipv4_text(a),
{
    let ghost start = out@;
    let o0 = u8_dec_chars(octet_exec(a, 0));
    extend_chars(out, o0.as_slice());
    out.push('.');
    let o1 = u8_dec_chars(octet_exec(a, 1));
    extend_chars(out, o1.as_slice());
    out.push('.');
    let o2 = u8_dec_chars(octet_exec(a, 2));
    extend_chars(out, o2.as_slice());
    out.push('.');
    let o3 = u8_dec_chars(octet_exec(a, 3));
    extend_chars(out, o3.as_slice());
    assert(out@ =~= start + ipv4_text(a));
}

fn group_exec(a: u128, k: usize) -> (r: u16)
    requires
        k < 8,
    ensures
        r == group(a, k as int),
{
    let shift: u32 = (112 - 16 * k) as u32;
    ((a >> shift) & 0xffff) as u16
}

fn hex_join_chars(segs: &[u16], out: &mut Vec<char>)
    ensures
        final(out)@ == old(out)@ + hex_join(segs@),
{
    let ghost start = out@;
    let mut i: usize = 0;
    while i < segs.len()
        invariant
            i <= segs.len(),
            out@ == start + hex_join(segs@.take(i as int)),
        decreases segs.len() - i,
    {
        let ghost before = out@;
        if i > 0 {
            out.push(':');
        }
        let h = u16_hex_chars(segs[i]);
        extend_chars(out, h.as_slice());
        proof {
            let t = segs@.take(i as int + 1);
            assert(t.drop_last() =~= segs@.take(i as int));
            assert(t.last() == segs@[i as int]);
            if i == 0 {
                assert(hex_join(segs@.take(0)) =~= Seq::<char>::empty());
                assert(out@ =~= start + hex_join(t));
            } else {
                assert(out@ =~= start + hex_join(t));
            }
        }
        i = i + 1;
    }
    assert(segs@.take(segs@.len() as int) =~= segs@);
}

fn sub_u16(v: &[u16], from: usize, to: usize) -> (r: Vec<u16>)
    requires
        from <= to <= v.len(),
    ensures
        r@ == v@.subrange(from as int, to as int),
{
    let mut r: Vec<u16> = Vec::new();
    let mut i: usize = from;
    while i < to
        invariant
            from <= i <= to <= v.len(),
            r@ == v@.subrange(from as int, i as int),
        decreases to - i,
    {
        r.push(v[i]);
        i = i + 1;
    }
    r
}

impl IpAddress {
    /// The address written the way std's `Display` writes it.
    pub fn to_string(&self) -> (r: String)
        ensures
            r@ == ip_text(*self),
    {
        let mut out: Vec<char> = Vec::new();
        match *self {
            IpAddress::V4(a) => {
                ipv4_chars(a, &mut out);
            },
            IpAddress::V6(a) => {
                if (a >> 32u32) == 0xffffu128 {
                    out.push(':');
                    out.push(':');
                    out.push('f');
                    out.push('f');
                    out.push('f');
                    out.push('f');
                    out.push(':');
                    ipv4_chars((a & 0xffff_ffffu128) as u32, &mut out);
                } else {
                    let mut segs: Vec<u16> = Vec::new();
                    let mut k: usize = 0;
                    while k < 8
                        invariant
                            k <= 8,
                            segs@ =~= groups(a).take(k as int),
                        decreases 8 - k,
                    {
                        segs.push(group_exec(a, k));
                        k = k + 1;
                    }
                    assert(segs@ =~= groups(a));
                    let mut cs: usize = 0;
                    let mut cl: usize = 0;
                    let mut bs: usize = 0;
                    let mut bl: usize = 0;
                    let mut i: usize = 0;
                    while i < 8
                        invariant
                            i <= 8,
                            segs@ == groups(a),
                            zero_scan(segs@, i as int) == (cs as int, cl as int, bs as int, bl as int),
                            cs + cl <= i,
                            bs + bl <= i,
                        decreases 8 - i,
                    {
                        if segs[i] == 0 {
                            if cl == 0 {
                                cs = i;
                            }
                            cl = cl + 1;
                            if cl > bl {
                                bs = cs;
                                bl = cl;
                            }
                        } else {
                            cs = 0;
                            cl = 0;
                        }
                        i = i + 1;
                    }
                    if bl > 1 {
                        let head = sub_u16(segs.as_slice(), 0, bs);
                        let tail = sub_u16(segs.as_slice(), bs + bl, 8);
                        assert(head@ =~= segs@.take(bs as int));
                        assert(tail@ =~= segs@.skip((bs + bl) as int));
                        hex_join_chars(head.as_slice(), &mut out);
                        out.push(':');
                        out.push(':');
                        hex_join_chars(tail.as_slice(), &mut out);
                    } else {
                        hex_join_chars(segs.as_slice(), &mut out);
                    }
                }
            },
        }
        assert(out@ =~= ip_text(*self));
        string_of(out.as_slice())
    }
}

} // verus!
