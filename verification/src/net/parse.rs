//! Reading IP addresses from text, with the grammar of std's `IpAddr`
//! parser: dotted quads of decimal octets (no leading zeros), and IPv6
//! groups of one to four hexadecimal digits with at most one `::` and an
//! optional trailing dotted quad.
use vstd::prelude::*;

use super::ip::{ipv4_text, octet, IpAddress};
use crate::text::{
    chars_of, dec_text, digit_char, index_of_from, split_all, split_all_exec, sub_chars,
};

verus! {

pub open spec fn is_dec_digit(c: char) -> bool {
    '0' <= c && c <= '9'
}

pub open spec fn is_hex_digit(c: char) -> bool {
    is_dec_digit(c) || ('a' <= c && c <= 'f') || ('A' <= c && c <= 'F')
}

/// The value of a decimal or hexadecimal digit.
pub open spec fn digit_value(c: char) -> nat {
    if is_dec_digit(c) {
        (c as nat - '0' as nat) as nat
    } else if 'a' <= c && c <= 'f' {
        (c as nat - 'a' as nat + 10) as nat
    } else {
        (c as nat - 'A' as nat + 10) as nat
    }
}

/// The value of the digits `s` in base `radix`.
pub open spec fn digits_value(s: Seq<char>, radix: nat) -> nat
    decreases s.len(),
{
    if s.len() == 0 {
        0
    } else {
        digits_value(s.drop_last(), radix) * radix + digit_value(s.last())
    }
}

/// A decimal octet: one to three digits, no leading zero, at most 255.
pub open spec fn octet_ok(p: Seq<char>) -> bool {
    &&& 1 <= p.len() <= 3
    &&& forall|i: int| 0 <= i < p.len() ==> is_dec_digit(#[trigger] p[i])
    &&& !(p.len() > 1 && p[0] == '0')
    &&& digits_value(p, 10) <= 255
}

/// An IPv6 group: one to four hexadecimal digits.
pub open spec fn hex_group_ok(p: Seq<char>) -> bool {
    &&& 1 <= p.len() <= 4
    &&& forall|i: int| 0 <= i < p.len() ==> is_hex_digit(#[trigger] p[i])
}

/// The dotted quad `s` as a 32-bit number, if it is one.
pub open spec fn ipv4_value(s: Seq<char>) -> Option<nat> {
    let ps = split_all(s, '.');
    if ps.len() == 4 && octet_ok(ps[0]) && octet_ok(ps[1]) && octet_ok(ps[2]) && octet_ok(ps[3]) {
        Some(
            digits_value(ps[0], 10) * 16777216 + digits_value(ps[1], 10) * 65536 + digits_value(
                ps[2],
                10,
            ) * 256 + digits_value(ps[3], 10),
        )
    } else {
        None
    }
}

/// Whether every piece of `parts` is an IPv6 group.
pub open spec fn all_hex_groups(parts: Seq<Seq<char>>) -> bool {
    forall|i: int| 0 <= i < parts.len() ==> hex_group_ok(#[trigger] parts[i])
}

/// The values of IPv6 groups.
pub open spec fn hex_values(parts: Seq<Seq<char>>) -> Seq<nat> {
    parts.map_values(|p: Seq<char>| digits_value(p, 16))
}

/// The 16-bit groups that `parts` stand for: IPv6 groups, the last of
/// which may (where `allow_quad`) be a dotted quad standing for two groups.
pub open spec fn groups_of(parts: Seq<Seq<char>>, allow_quad: bool) -> Option<Seq<nat>> {
    if all_hex_groups(parts) {
        Some(hex_values(parts))
    } else if allow_quad && parts.len() > 0 && all_hex_groups(parts.drop_last()) && ipv4_value(
        parts.last(),
    ) is Some {
        let q = ipv4_value(parts.last())->0;
        Some(hex_values(parts.drop_last()) + seq![q / 65536, q % 65536])
    } else {
        None
    }
}

/// Position of the first `::` in `s` at or after `i`.
pub open spec fn double_colon_from(s: Seq<char>, i: int) -> Option<int>
    decreases s.len() - i,
{
    if i < 0 || i + 1 >= s.len() {
        None
    } else if s[i] == ':' && s[i + 1] == ':' {
        Some(i)
    } else {
        double_colon_from(s, i + 1)
    }
}

/// The pieces of `s` between colons, none for an empty text.
pub open spec fn colon_pieces(s: Seq<char>) -> Seq<Seq<char>> {
    if s.len() == 0 {
        seq![]
    } else {
        split_all(s, ':')
    }
}

/// The eight groups of the IPv6 text `s`, if it is one: eight groups, or
/// groups before and after one `::` that stands for at least one zero group.
pub open spec fn ipv6_groups(s: Seq<char>) -> Option<Seq<nat>> {
    match double_colon_from(s, 0) {
        None => match groups_of(split_all(s, ':'), true) {
            Some(g) => if g.len() == 8 {
                Some(g)
            } else {
                None
            },
            None => None,
        },
        Some(k) => match (
            groups_of(colon_pieces(s.take(k)), false),
            groups_of(colon_pieces(s.skip(k + 2)), true),
        ) {
            (Some(h), Some(t)) => if h.len() + t.len() <= 7 {
                Some(h + Seq::new((8 - h.len() - t.len()) as nat, |i: int| 0nat) + t)
            } else {
                None
            },
            _ => None,
        },
    }
}

/// The 128-bit number of eight 16-bit groups, most significant first.
pub open spec fn groups_value(g: Seq<nat>) -> nat {
    g[0] * 0x10000_0000_0000_0000_0000_0000_0000 + g[1] * 0x1_0000_0000_0000_0000_0000_0000
        + g[2] * 0x1_0000_0000_0000_0000_0000 + g[3] * 0x1_0000_0000_0000_0000 + g[4]
        * 0x1_0000_0000_0000 + g[5] * 0x1_0000_0000 + g[6] * 0x1_0000 + g[7]
}

/// The address that the text `s` stands for, as std's `IpAddr` parser reads it.
pub open spec fn ip_parse(s: Seq<char>) -> Option<IpAddress> {
    match ipv4_value(s) {
        Some(v) => Some(IpAddress::V4(v as u32)),
        None => match ipv6_groups(s) {
            Some(g) => Some(IpAddress::V6(groups_value(g) as u128)),
            None => None,
        },
    }
}

fn digit_value_exec(c: char) -> (r: u32)
    requires
        is_hex_digit(c),
    ensures
        r == digit_value(c),
        r < 16,
{
    if '0' <= c && c <= '9' {
        (c as u32) - ('0' as u32)
    } else if 'a' <= c && c <= 'f' {
        (c as u32) - ('a' as u32) + 10
    } else {
        (c as u32) - ('A' as u32) + 10
    }
}

/// The value of a decimal octet, if `p` is one.
pub fn octet_field(p: &[char]) -> (r: Option<u8>)
    ensures
        r is Some <==> octet_ok(p@),
        r matches Some(x) ==> x == digits_value(p@, 10),
{
    if p.len() == 0 || p.len() > 3 {
        return None;
    }
    if p.len() > 1 && p[0] == '0' {
        return None;
    }
    let mut val: u32 = 0;
    let mut i: usize = 0;
    while i < p.len()
        invariant
            1 <= p.len() <= 3,
            i <= p.len(),
            forall|j: int| 0 <= j < i ==> is_dec_digit(#[trigger] p@[j]),
            val == digits_value(p@.take(i as int), 10),
            i == 0 ==> val == 0,
            i == 1 ==> val < 10,
            i == 2 ==> val < 100,
            i == 3 ==> val < 1000,
        decreases p.len() - i,
    {
        let c = p[i];
        if !('0' <= c && c <= '9') {
            return None;
        }
        let d = digit_value_exec(c);
        assert(p@.take(i + 1).drop_last() =~= p@.take(i as int));
        val = val * 10 + d;
        i = i + 1;
    }
    assert(p@.take(i as int) =~= p@);
    if val > 255 {
        return None;
    }
    Some(val as u8)
}

/// The value of an IPv6 group, if `p` is one.
pub fn hex_group_field(p: &[char]) -> (r: Option<u16>)
    ensures
        r is Some <==> hex_group_ok(p@),
        r matches Some(x) ==> x == digits_value(p@, 16),
{
    if p.len() == 0 || p.len() > 4 {
        return None;
    }
    let mut val: u32 = 0;
    let mut i: usize = 0;
    while i < p.len()
        invariant
            1 <= p.len() <= 4,
            i <= p.len(),
            forall|j: int| 0 <= j < i ==> is_hex_digit(#[trigger] p@[j]),
            val == digits_value(p@.take(i as int), 16),
            i == 0 ==> val == 0,
            i == 1 ==> val < 16,
            i == 2 ==> val < 256,
            i == 3 ==> val < 4096,
            i == 4 ==> val < 65536,
        decreases p.len() - i,
    {
        let c = p[i];
        if !(('0' <= c && c <= '9') || ('a' <= c && c <= 'f') || ('A' <= c && c <= 'F')) {
            return None;
        }
        let d = digit_value_exec(c);
        assert(p@.take(i + 1).drop_last() =~= p@.take(i as int));
        val = val * 16 + d;
        i = i + 1;
    }
    assert(p@.take(i as int) =~= p@);
    Some(val as u16)
}

/// The dotted quad `v` as a 32-bit number, if it is one.
pub fn ipv4_field(v: &[char]) -> (r: Option<u32>)
    ensures
        r is Some <==> ipv4_value(v@) is Some,
        r matches Some(x) ==> x == ipv4_value(v@)->0,
{
    let parts = split_all_exec(v, '.');
    let ghost ps = split_all(v@, '.');
    if parts.len() != 4 {
        return None;
    }
    assert(ps[0] == parts@[0]@);
    assert(ps[1] == parts@[1]@);
    assert(ps[2] == parts@[2]@);
    assert(ps[3] == parts@[3]@);
    let a = match octet_field(parts[0].as_slice()) {
        Some(x) => x,
        None => return None,
    };
    let b = match octet_field(parts[1].as_slice()) {
        Some(x) => x,
        None => return None,
    };
    let c = match octet_field(parts[2].as_slice()) {
        Some(x) => x,
        None => return None,
    };
    let d = match octet_field(parts[3].as_slice()) {
        Some(x) => x,
        None => return None,
    };
    Some((a as u32) * 16777216 + (b as u32) * 65536 + (c as u32) * 256 + (d as u32))
}

/// The groups that the pieces `parts` stand for (see [`groups_of`]).
fn groups_field(parts: &Vec<Vec<char>>, allow_quad: bool) -> (r: Option<Vec<u16>>)
    ensures
        r is Some <==> groups_of(parts@.map_values(|l: Vec<char>| l@), allow_quad) is Some,
        r matches Some(g) ==> groups_of(parts@.map_values(|l: Vec<char>| l@), allow_quad)->0
            == g@.map_values(|x: u16| x as nat),
{
    let ghost ps = parts@.map_values(|l: Vec<char>| l@);
    let mut out: Vec<u16> = Vec::new();
    let mut i: usize = 0;
    while i < parts.len()
        invariant
            i <= parts.len(),
            ps == parts@.map_values(|l: Vec<char>| l@),
            all_hex_groups(ps.take(i as int)),
            out@.map_values(|x: u16| x as nat) == hex_values(ps.take(i as int)),
        decreases parts.len() - i,
    {
        assert(ps[i as int] == parts@[i as int]@);
        match hex_group_field(parts[i].as_slice()) {
            Some(g) => {
                let ghost before = out@;
                out.push(g);
                assert(ps.take(i + 1) =~= ps.take(i as int).push(ps[i as int]));
                assert(out@.map_values(|x: u16| x as nat) =~= before.map_values(|x: u16| x as nat).push(g as nat));
                assert(hex_values(ps.take(i + 1)) =~= hex_values(ps.take(i as int)).push(digits_value(ps[i as int], 16)));
                i = i + 1;
            },
            None => {
                assert(!all_hex_groups(ps));
                if allow_quad && i + 1 == parts.len() {
                    assert(ps.drop_last() =~= ps.take(i as int));
                    match ipv4_field(parts[i].as_slice()) {
                        Some(q) => {
                            let ghost before = out@;
                            out.push((q / 65536) as u16);
                            out.push((q % 65536) as u16);
                            assert(out@.map_values(|x: u16| x as nat) =~= before.map_values(|x: u16| x as nat) + seq![q as nat / 65536, q as nat % 65536]);
                            return Some(out);
                        },
                        None => {
                            return None;
                        },
                    }
                } else {
                    proof {
                        if allow_quad && ps.len() > 0 && all_hex_groups(ps.drop_last()) {
                            assert(ps.drop_last()[i as int] == ps[i as int]);
                        }
                    }
                    return None;
                }
            },
        }
    }
    assert(ps.take(i as int) =~= ps);
    Some(out)
}

/// Position of the first `::` in `v`.
fn double_colon(v: &[char]) -> (r: Option<usize>)
    ensures
        r matches Some(k) ==> double_colon_from(v@, 0) == Some(k as int) && k + 1 < v.len(),
        r is None ==> double_colon_from(v@, 0) is None,
{
    let mut i: usize = 0;
    while i < v.len() && i + 1 < v.len()
        invariant
            i <= v.len(),
            double_colon_from(v@, 0) == double_colon_from(v@, i as int),
        decreases v.len() - i,
    {
        if v[i] == ':' && v[i + 1] == ':' {
            return Some(i);
        }
        i = i + 1;
    }
    None
}

/// The pieces of `v` between colons, none for an empty text.
fn colon_pieces_exec(v: &[char]) -> (r: Vec<Vec<char>>)
    ensures
        r@.map_values(|l: Vec<char>| l@) == colon_pieces(v@),
{
    if v.len() == 0 {
        let r: Vec<Vec<char>> = Vec::new();
        assert(r@.map_values(|l: Vec<char>| l@) =~= Seq::<Seq<char>>::empty());
        r
    } else {
        split_all_exec(v, ':')
    }
}

/// The eight groups of the IPv6 text `v`, if it is one.
pub fn ipv6_field(v: &[char]) -> (r: Option<Vec<u16>>)
    ensures
        r is Some <==> ipv6_groups(v@) is Some,
        r matches Some(g) ==> ipv6_groups(v@)->0 == g@.map_values(|x: u16| x as nat) && g@.len()
            == 8,
{
    match double_colon(v) {
        None => {
            let parts = split_all_exec(v, ':');
            match groups_field(&parts, true) {
                Some(g) => {
                    if g.len() == 8 {
                        Some(g)
                    } else {
                        None
                    }
                },
                None => None,
            }
        },
        Some(k) => {
            let head_chars = sub_chars(v, 0, k);
            let tail_chars = sub_chars(v, k + 2, v.len());
            assert(head_chars@ =~= v@.take(k as int));
            assert(tail_chars@ =~= v@.skip(k + 2));
            let head = colon_pieces_exec(head_chars.as_slice());
            let tail = colon_pieces_exec(tail_chars.as_slice());
            let h = match groups_field(&head, false) {
                Some(h) => h,
                None => return None,
            };
            let t = match groups_field(&tail, true) {
                Some(t) => t,
                None => return None,
            };
            if h.len() > 7 || t.len() > 7 - h.len() {
                return None;
            }
            let ghost hv = h@.map_values(|x: u16| x as nat);
            let ghost tv = t@.map_values(|x: u16| x as nat);
            let zeros: usize = 8 - h.len() - t.len();
            let mut out: Vec<u16> = Vec::new();
            let mut i: usize = 0;
            while i < h.len()
                invariant
                    i <= h.len(),
                    out@.map_values(|x: u16| x as nat) =~= hv.take(i as int),
                    hv == h@.map_values(|x: u16| x as nat),
                decreases h.len() - i,
            {
                let ghost before = out@;
                out.push(h[i]);
                assert(out@.map_values(|x: u16| x as nat) =~= before.map_values(|x: u16| x as nat).push(h@[i as int] as nat));
                assert(hv.take(i + 1) =~= hv.take(i as int).push(hv[i as int]));
                i = i + 1;
                assert(out@.map_values(|x: u16| x as nat) =~= hv.take(i as int));
            }
            let ghost z = Seq::new(zeros as nat, |j: int| 0nat);
            let mut j: usize = 0;
            while j < zeros
                invariant
                    j <= zeros,
                    out@.map_values(|x: u16| x as nat) =~= hv + z.take(j as int),
                    hv == h@.map_values(|x: u16| x as nat),
                    z == Seq::new(zeros as nat, |j: int| 0nat),
                decreases zeros - j,
            {
                let ghost before = out@;
                out.push(0);
                assert(out@.map_values(|x: u16| x as nat) =~= before.map_values(|x: u16| x as nat).push(0nat));
                assert(z.take(j + 1) =~= z.take(j as int).push(0nat));
                j = j + 1;
                assert(out@.map_values(|x: u16| x as nat) =~= hv + z.take(j as int));
            }
            let mut m: usize = 0;
            while m < t.len()
                invariant
                    m <= t.len(),
                    out@.map_values(|x: u16| x as nat) =~= hv + z + tv.take(m as int),
                    hv == h@.map_values(|x: u16| x as nat),
                    tv == t@.map_values(|x: u16| x as nat),
                    z == Seq::new(zeros as nat, |j: int| 0nat),
                    zeros == 8 - h.len() - t.len(),
                decreases t.len() - m,
            {
                let ghost before = out@;
                out.push(t[m]);
                assert(out@.map_values(|x: u16| x as nat) =~= before.map_values(|x: u16| x as nat).push(t@[m as int] as nat));
                assert(tv.take(m + 1) =~= tv.take(m as int).push(tv[m as int]));
                m = m + 1;
                assert(out@.map_values(|x: u16| x as nat) =~= hv + z + tv.take(m as int));
            }
            assert(tv.take(m as int) =~= tv);
            assert(z.take(j as int) =~= z);
            Some(out)
        },
    }
}

/// The 128-bit number of eight groups.
pub fn groups_to_u128(g: &Vec<u16>) -> (r: u128)
    requires
        g@.len() == 8,
    ensures
        r as nat == groups_value(g@.map_values(|x: u16| x as nat)),
{
    let ghost gv = g@.map_values(|x: u16| x as nat);
    assert(gv[0] == g@[0] as nat);
    assert(gv[1] == g@[1] as nat);
    assert(gv[2] == g@[2] as nat);
    assert(gv[3] == g@[3] as nat);
    assert(gv[4] == g@[4] as nat);
    assert(gv[5] == g@[5] as nat);
    assert(gv[6] == g@[6] as nat);
    assert(gv[7] == g@[7] as nat);
    (g[0] as u128) * 0x10000_0000_0000_0000_0000_0000_0000 + (g[1] as u128)
        * 0x1_0000_0000_0000_0000_0000_0000 + (g[2] as u128) * 0x1_0000_0000_0000_0000_0000
        + (g[3] as u128) * 0x1_0000_0000_0000_0000 + (g[4] as u128) * 0x1_0000_0000_0000
        + (g[5] as u128) * 0x1_0000_0000 + (g[6] as u128) * 0x1_0000 + (g[7] as u128)
}

impl IpAddress {
    /// Reads an IP address from text, as std's `IpAddr` parser does.
    pub fn parse(s: &str) -> (r: Option<IpAddress>)
        ensures
            r == ip_parse(s@),
    {
        let v = chars_of(s);
        match ipv4_field(v.as_slice()) {
            Some(a) => {
                return Some(IpAddress::V4(a));
            },
            None => {},
        }
        match ipv6_field(v.as_slice()) {
            Some(g) => {
                let value = groups_to_u128(&g);
                Some(IpAddress::V6(value))
            },
            None => None,
        }
    }
}

/// The first `c` of `x + [c] + y` where `x` holds no `c` is right after `x`.
pub(crate) proof fn lemma_index_after_prefix(x: Seq<char>, y: Seq<char>, c: char, i: int)
    requires
        !x.contains(c),
        0 <= i <= x.len(),
    ensures
        index_of_from(x + seq![c] + y, c, i) == Some(x.len() as int),
    decreases x.len() - i,
{
    let s = x + seq![c] + y;
    if i < x.len() {
        assert(s[i] == x[i]);
        assert(x[i] != c) by {
            if x[i] == c {
                assert(x.contains(c));
            }
        }
        lemma_index_after_prefix(x, y, c, i + 1);
    } else {
        assert(s[i] == c);
    }
}

/// A text without `c` has no `c` from any position on.
pub(crate) proof fn lemma_index_none(x: Seq<char>, c: char, i: int)
    requires
        !x.contains(c),
        0 <= i,
    ensures
        index_of_from(x, c, i) is None,
    decreases x.len() - i,
{
    if i < x.len() {
        assert(x[i] != c) by {
            if x[i] == c {
                assert(x.contains(c));
            }
        }
        lemma_index_none(x, c, i + 1);
    }
}

/// Splitting `x + [c] + y` at `c`, where `x` holds no `c`.
pub(crate) proof fn lemma_split_join(x: Seq<char>, y: Seq<char>, c: char)
    requires
        !x.contains(c),
    ensures
        split_all(x + seq![c] + y, c) == seq![x] + split_all(y, c),
{
    let s = x + seq![c] + y;
    lemma_index_after_prefix(x, y, c, 0);
    assert(s.take(x.len() as int) =~= x);
    assert(s.skip(x.len() as int + 1) =~= y);
}

/// A text without `c` splits into itself.
pub(crate) proof fn lemma_split_single(x: Seq<char>, c: char)
    requires
        !x.contains(c),
    ensures
        split_all(x, c) == seq![x],
{
    lemma_index_none(x, c, 0);
}

/// A decimal digit character: a digit, not a dot, worth its value.
pub(crate) proof fn lemma_digit_char(d: nat)
    requires
        d < 10,
    ensures
        is_dec_digit(digit_char(d)),
        digit_value(digit_char(d)) == d,
        digit_char(d) != '.',
        (d == 0) == (digit_char(d) == '0'),
{
    let c = digit_char(d);
    assert(c as u32 == (d as u32) + 48);
    assert('0' as u32 == 48);
    assert('9' as u32 == 57);
    assert('.' as u32 == 46);
}

/// The decimal text of an octet is a valid dotted-quad field of the same
/// value, without dots.
pub(crate) proof fn lemma_dec_text_octet(n: nat)
    requires
        n <= 255,
    ensures
        octet_ok(dec_text(n)),
        digits_value(dec_text(n), 10) == n,
        !dec_text(n).contains('.'),
{
    reveal_with_fuel(dec_text, 3);
    reveal_with_fuel(digits_value, 4);
    let t = dec_text(n);
    lemma_digit_char(n % 10);
    lemma_digit_char((n / 10) % 10);
    lemma_digit_char(n / 100);
    if n < 10 {
        assert(t == seq![digit_char(n)]);
        assert(t.drop_last() =~= Seq::<char>::empty());
        assert(digits_value(t, 10) == n);
    } else if n < 100 {
        assert(t == seq![digit_char(n / 10), digit_char(n % 10)]);
        assert(t.drop_last() =~= seq![digit_char(n / 10)]);
        assert(t.drop_last().drop_last() =~= Seq::<char>::empty());
        lemma_digit_char(n / 10);
        assert(digits_value(t.drop_last(), 10) == n / 10);
        assert(digits_value(t, 10) == (n / 10) * 10 + n % 10);
        assert(t[0] == digit_char(n / 10));
    } else {
        assert(dec_text(n / 10) == seq![digit_char(n / 100), digit_char((n / 10) % 10)]) by {
            assert((n / 10) / 10 == n / 100);
        }
        assert(t == seq![digit_char(n / 100), digit_char((n / 10) % 10), digit_char(n % 10)]);
        assert(t.drop_last() =~= seq![digit_char(n / 100), digit_char((n / 10) % 10)]);
        assert(t.drop_last().drop_last() =~= seq![digit_char(n / 100)]);
        assert(t.drop_last().drop_last().drop_last() =~= Seq::<char>::empty());
        assert(digits_value(t.drop_last().drop_last(), 10) == n / 100);
        assert(digits_value(t.drop_last(), 10) == (n / 100) * 10 + (n / 10) % 10);
        assert((n / 100) * 10 + (n / 10) % 10 == n / 10);
        assert(digits_value(t, 10) == (n / 10) * 10 + n % 10);
        assert(t[0] == digit_char(n / 100));
    }
    assert forall|i: int| 0 <= i < t.len() implies is_dec_digit(#[trigger] t[i]) && t[i] != '.' by {
    }
}

/// What the dotted quad of an IPv4 address reads back as, and its shape:
/// at least seven characters, no colon.
pub(crate) proof fn lemma_ipv4_text_value(a: u32)
    ensures
        ipv4_value(ipv4_text(a)) == Some(a as nat),
        ipv4_text(a).len() >= 7,
        !ipv4_text(a).contains(':'),
{
    let o0 = octet(a, 0);
    let o1 = octet(a, 1);
    let o2 = octet(a, 2);
    let o3 = octet(a, 3);
    assert(o0 == (a >> 24u32) & 0xffu32);
    assert(o1 == (a >> 16u32) & 0xffu32);
    assert(o2 == (a >> 8u32) & 0xffu32);
    assert(o3 == (a >> 0u32) & 0xffu32);
    assert(((a >> 24u32) & 0xffu32) <= 255 && ((a >> 16u32) & 0xffu32) <= 255 && ((a >> 8u32)
        & 0xffu32) <= 255 && ((a >> 0u32) & 0xffu32) <= 255) by (bit_vector);
    assert(a == ((a >> 24u32) & 0xffu32) * 16777216 + ((a >> 16u32) & 0xffu32) * 65536 + ((a
        >> 8u32) & 0xffu32) * 256 + ((a >> 0u32) & 0xffu32)) by (bit_vector);
    let d0 = dec_text(o0 as nat);
    let d1 = dec_text(o1 as nat);
    let d2 = dec_text(o2 as nat);
    let d3 = dec_text(o3 as nat);
    lemma_dec_text_octet(o0 as nat);
    lemma_dec_text_octet(o1 as nat);
    lemma_dec_text_octet(o2 as nat);
    lemma_dec_text_octet(o3 as nat);
    let t = ipv4_text(a);
    let r2 = d2 + seq!['.'] + d3;
    let r1 = d1 + seq!['.'] + r2;
    assert(t =~= d0 + seq!['.'] + r1);
    lemma_split_join(d0, r1, '.');
    lemma_split_join(d1, r2, '.');
    lemma_split_join(d2, d3, '.');
    lemma_split_single(d3, '.');
    let ps = split_all(t, '.');
    assert(ps =~= seq![d0, d1, d2, d3]);
    assert(ipv4_value(t) == Some(a as nat));
    assert(!t.contains(':')) by {
        if t.contains(':') {
            let j = choose|j: int| 0 <= j < t.len() && t[j] == ':';
            if j < d0.len() {
                assert(d0[j] == ':');
            } else if j == d0.len() {
            } else if j < d0.len() + 1 + d1.len() {
                assert(d1[j - d0.len() - 1] == ':');
            } else if j == d0.len() + 1 + d1.len() {
            } else if j < d0.len() + 2 + d1.len() + d2.len() {
                assert(d2[j - d0.len() - 2 - d1.len()] == ':');
            } else if j == d0.len() + 2 + d1.len() + d2.len() {
            } else {
                assert(d3[j - d0.len() - 3 - d1.len() - d2.len()] == ':');
            }
        }
    }
}

/// The dotted-quad text of an IPv4 address reads back as that address.
pub proof fn law_ipv4_text_reads_back(a: u32)
    ensures
        ip_parse(ipv4_text(a)) == Some(IpAddress::V4(a)),
{
    lemma_ipv4_text_value(a);
}

} // verus!
