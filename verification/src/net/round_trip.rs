//! Text forms read back: the text of an IP address or a socket address parses
//! as that address.
use vstd::prelude::*;

use super::ip::{
    group, groups, hex_join, ip_text, ipv4_text, ipv6_text, is_v4_mapped, octet, zero_scan, IpAddress,
};
use super::parse::{
    all_hex_groups, colon_pieces, digit_value, digits_value, double_colon_from, groups_of,
    groups_value, hex_group_ok, hex_values, ip_parse, ipv4_value, ipv6_groups, is_dec_digit,
    is_hex_digit, lemma_digit_char, lemma_index_after_prefix, lemma_index_none,
    lemma_ipv4_text_value, lemma_split_join, lemma_split_single, octet_ok,
};
use super::socket::{dec_number, socket_ip, socket_parse, socket_port, socket_text, SocketAddress};
use crate::text::{
    dec_text, digit_char, hex_digit_char, hex_text, index_of, lemma_index_of_from, split_all,
    split_once,
};

verus! {

/// A hexadecimal digit character: a hex digit, not a colon or dot, worth
/// its value.
proof fn lemma_hex_digit_char(d: nat)
    requires
        d < 16,
    ensures
        is_hex_digit(hex_digit_char(d)),
        digit_value(hex_digit_char(d)) == d,
        hex_digit_char(d) != ':',
        hex_digit_char(d) != '.',
{
    let c = hex_digit_char(d);
    if d < 10 {
        assert(c as u32 == (d as u32) + 48);
    } else {
        assert(c as u32 == (d as u32) + 87);
    }
    assert('0' as u32 == 48);
    assert('9' as u32 == 57);
    assert('a' as u32 == 97);
    assert('f' as u32 == 102);
    assert('A' as u32 == 65);
    assert('F' as u32 == 70);
    assert(':' as u32 == 58);
    assert('.' as u32 == 46);
}

/// The hexadecimal text of a number: hex digits only, worth the number,
/// at most four of them below 65536.
proof fn lemma_hex_text(n: nat)
    ensures
        forall|i: int|
            0 <= i < hex_text(n).len() ==> is_hex_digit(#[trigger] hex_text(n)[i])
                && hex_text(n)[i] != ':' && hex_text(n)[i] != '.',
        digits_value(hex_text(n), 16) == n,
        hex_text(n).len() >= 1,
        n < 16 ==> hex_text(n).len() == 1,
        n < 256 ==> hex_text(n).len() <= 2,
        n < 4096 ==> hex_text(n).len() <= 3,
        n < 65536 ==> hex_text(n).len() <= 4,
    decreases n,
{
    let t = hex_text(n);
    lemma_hex_digit_char(n % 16);
    if n < 16 {
        assert(t == seq![hex_digit_char(n)]);
        assert(t.drop_last() =~= Seq::<char>::empty());
        assert(digits_value(t, 16) == digits_value(t.drop_last(), 16) * 16 + digit_value(t.last()));
    } else {
        lemma_hex_text(n / 16);
        let p = hex_text(n / 16);
        assert(t == p.push(hex_digit_char(n % 16)));
        assert(t.drop_last() =~= p);
        assert(digits_value(t, 16) == digits_value(p, 16) * 16 + digit_value(t.last()));
        assert forall|i: int| 0 <= i < t.len() implies is_hex_digit(#[trigger] t[i]) && t[i] != ':'
            && t[i] != '.' by {
            if i < p.len() {
                assert(t[i] == p[i]);
            }
        }
    }
}

/// A hexadecimal group text is a valid group worth its number.
proof fn lemma_hex_text_group(n: nat)
    requires
        n < 65536,
    ensures
        hex_group_ok(hex_text(n)),
        digits_value(hex_text(n), 16) == n,
        !hex_text(n).contains(':'),
        !hex_text(n).contains('.'),
{
    lemma_hex_text(n);
}

/// Splitting `x + [c] + y` at `c`, where `y` holds no `c`.
proof fn lemma_split_append(x: Seq<char>, y: Seq<char>, c: char)
    requires
        !y.contains(c),
    ensures
        split_all(x + seq![c] + y, c) == split_all(x, c).push(y),
    decreases x.len(),
{
    lemma_index_of_from(x, c, 0);
    match index_of(x, c) {
        None => {
            assert(!x.contains(c)) by {
                if x.contains(c) {
                    let j = choose|j: int| 0 <= j < x.len() && x[j] == c;
                    assert(x[j] != c);
                }
            }
            lemma_split_join(x, y, c);
            lemma_split_single(y, c);
            assert(split_all(x, c) == seq![x]);
            assert(seq![x] + seq![y] =~= seq![x].push(y));
        },
        Some(i) => {
            let x1 = x.take(i);
            let x2 = x.skip(i + 1);
            assert(!x1.contains(c)) by {
                if x1.contains(c) {
                    let j = choose|j: int| 0 <= j < x1.len() && x1[j] == c;
                    assert(x[j] == c);
                }
            }
            assert(x + seq![c] + y =~= x1 + seq![c] + (x2 + seq![c] + y));
            lemma_split_join(x1, x2 + seq![c] + y, c);
            lemma_split_append(x2, y, c);
            assert(split_all(x, c) == seq![x1] + split_all(x2, c));
            assert(seq![x1] + split_all(x2, c).push(y) =~= (seq![x1] + split_all(x2, c)).push(y));
        },
    }
}

/// The hexadecimal texts of groups.
pub open spec fn hex_texts(segs: Seq<u16>) -> Seq<Seq<char>> {
    segs.map_values(|g: u16| hex_text(g as nat))
}

/// No two colons next to each other.
pub open spec fn no_double_colon(s: Seq<char>) -> bool {
    forall|i: int| 0 <= i && i + 1 < s.len() ==> !(#[trigger] s[i] == ':' && s[i + 1] == ':')
}

/// Joined groups split back into the group texts; the join holds no dot,
/// no `::`, and neither starts nor ends with a colon.
proof fn lemma_hex_join(segs: Seq<u16>)
    requires
        segs.len() >= 1,
    ensures
        split_all(hex_join(segs), ':') == hex_texts(segs),
        !hex_join(segs).contains('.'),
        no_double_colon(hex_join(segs)),
        hex_join(segs).len() >= 1,
        hex_join(segs)[0] != ':',
        hex_join(segs).last() != ':',
    decreases segs.len(),
{
    let s = hex_join(segs);
    let h = hex_text(segs.last() as nat);
    lemma_hex_text(segs.last() as nat);
    assert(!h.contains(':')) by {
        if h.contains(':') {
            let j = choose|j: int| 0 <= j < h.len() && h[j] == ':';
            assert(h[j] != ':');
        }
    }
    if segs.len() == 1 {
        assert(s == hex_text(segs[0] as nat));
        lemma_split_single(s, ':');
        assert(hex_texts(segs) =~= seq![h]);
        assert(!s.contains('.')) by {
            if s.contains('.') {
                let j = choose|j: int| 0 <= j < s.len() && s[j] == '.';
                assert(s[j] != '.');
            }
        }
    } else {
        let p = hex_join(segs.drop_last());
        lemma_hex_join(segs.drop_last());
        assert(s == p + seq![':'] + h);
        lemma_split_append(p, h, ':');
        assert(hex_texts(segs) =~= hex_texts(segs.drop_last()).push(h));
        assert(!s.contains('.')) by {
            if s.contains('.') {
                let j = choose|j: int| 0 <= j < s.len() && s[j] == '.';
                if j < p.len() {
                    assert(p[j] == '.');
                    assert(p.contains('.'));
                } else if j > p.len() {
                    assert(h[j - p.len() - 1] != '.');
                }
            }
        }
        assert forall|i: int| 0 <= i && i + 1 < s.len() implies !(#[trigger] s[i] == ':' && s[i + 1]
            == ':') by {
            if i + 1 < p.len() {
                assert(s[i] == p[i] && s[i + 1] == p[i + 1]);
            } else if i + 1 == p.len() {
                assert(s[i] == p.last());
            } else if i == p.len() {
                assert(s[i + 1] == h[0]);
            } else {
                assert(s[i] == h[i - p.len() - 1]);
            }
        }
        assert(s[0] == p[0]);
        assert(s.last() == h.last());
    }
}

/// Without `::` in `s`, none is found.
proof fn lemma_double_colon_none(s: Seq<char>, i: int)
    requires
        no_double_colon(s),
        0 <= i,
    ensures
        double_colon_from(s, i) is None,
    decreases s.len() - i,
{
    if i + 1 < s.len() {
        assert(!(s[i] == ':' && s[i + 1] == ':'));
        lemma_double_colon_none(s, i + 1);
    }
}

/// The first `::` at or after `i` is the one at `k` when none starts
/// between them.
proof fn lemma_double_colon_at(s: Seq<char>, i: int, k: int)
    requires
        0 <= i <= k,
        k + 1 < s.len(),
        s[k] == ':' && s[k + 1] == ':',
        forall|j: int| i <= j < k ==> !(#[trigger] s[j] == ':' && s[j + 1] == ':'),
    ensures
        double_colon_from(s, i) == Some(k),
    decreases k - i,
{
    if i < k {
        lemma_double_colon_at(s, i + 1, k);
    }
}

/// The runs that the zero scan records are runs of zero groups within the
/// scanned part.
proof fn lemma_zero_scan(segs: Seq<u16>, n: int)
    requires
        0 <= n <= segs.len(),
    ensures
        ({
            let (cs, cl, bs, bl) = zero_scan(segs, n);
            &&& 0 <= cs && 0 <= cl && 0 <= bs && 0 <= bl
            &&& bs + bl <= n
            &&& cl > 0 ==> cs + cl == n
            &&& forall|j: int| bs <= j < bs + bl ==> segs[j] == 0
            &&& forall|j: int| cs <= j < cs + cl ==> segs[j] == 0
        }),
    decreases n,
{
    if n > 0 {
        lemma_zero_scan(segs, n - 1);
    }
}

/// Group texts read back as their groups.
proof fn lemma_groups_of_hex(segs: Seq<u16>, allow_quad: bool)
    ensures
        groups_of(hex_texts(segs), allow_quad) == Some(segs.map_values(|g: u16| g as nat)),
{
    let parts = hex_texts(segs);
    assert forall|i: int| 0 <= i < parts.len() implies hex_group_ok(#[trigger] parts[i]) by {
        lemma_hex_text_group(segs[i] as nat);
    }
    assert(all_hex_groups(parts));
    assert forall|i: int| 0 <= i < parts.len() implies #[trigger] hex_values(parts)[i] == segs.map_values(
        |g: u16| g as nat,
    )[i] by {
        lemma_hex_text_group(segs[i] as nat);
    }
    assert(hex_values(parts) =~= segs.map_values(|g: u16| g as nat));
}

/// The pieces between the colons of joined groups are the group texts.
proof fn lemma_colon_pieces_of_join(segs: Seq<u16>)
    ensures
        colon_pieces(hex_join(segs)) == hex_texts(segs),
        !hex_join(segs).contains('.'),
        no_double_colon(hex_join(segs)),
        segs.len() > 0 ==> hex_join(segs).len() >= 1 && hex_join(segs)[0] != ':'
            && hex_join(segs).last() != ':',
        segs.len() == 0 ==> hex_join(segs).len() == 0,
{
    if segs.len() == 0 {
        assert(hex_texts(segs) =~= Seq::<Seq<char>>::empty());
    } else {
        lemma_hex_join(segs);
    }
}

/// Eight groups put together give back the address they were taken from.
proof fn lemma_groups_value(a: u128)
    ensures
        groups(a).len() == 8,
        groups_value(groups(a).map_values(|g: u16| g as nat)) == a,
{
    let g = groups(a).map_values(|x: u16| x as nat);
    assert(((a >> 112u32) & 0xffffu128) as u16 as u128 == (a >> 112u32) & 0xffffu128) by (bit_vector);
    assert(((a >> 96u32) & 0xffffu128) as u16 as u128 == (a >> 96u32) & 0xffffu128) by (bit_vector);
    assert(((a >> 80u32) & 0xffffu128) as u16 as u128 == (a >> 80u32) & 0xffffu128) by (bit_vector);
    assert(((a >> 64u32) & 0xffffu128) as u16 as u128 == (a >> 64u32) & 0xffffu128) by (bit_vector);
    assert(((a >> 48u32) & 0xffffu128) as u16 as u128 == (a >> 48u32) & 0xffffu128) by (bit_vector);
    assert(((a >> 32u32) & 0xffffu128) as u16 as u128 == (a >> 32u32) & 0xffffu128) by (bit_vector);
    assert(((a >> 16u32) & 0xffffu128) as u16 as u128 == (a >> 16u32) & 0xffffu128) by (bit_vector);
    assert(((a >> 0u32) & 0xffffu128) as u16 as u128 == (a >> 0u32) & 0xffffu128) by (bit_vector);
    assert(g[0] == group(a, 0) as nat && group(a, 0) == ((a >> 112u32) & 0xffffu128) as u16);
    assert(g[1] == group(a, 1) as nat && group(a, 1) == ((a >> 96u32) & 0xffffu128) as u16);
    assert(g[2] == group(a, 2) as nat && group(a, 2) == ((a >> 80u32) & 0xffffu128) as u16);
    assert(g[3] == group(a, 3) as nat && group(a, 3) == ((a >> 64u32) & 0xffffu128) as u16);
    assert(g[4] == group(a, 4) as nat && group(a, 4) == ((a >> 48u32) & 0xffffu128) as u16);
    assert(g[5] == group(a, 5) as nat && group(a, 5) == ((a >> 32u32) & 0xffffu128) as u16);
    assert(g[6] == group(a, 6) as nat && group(a, 6) == ((a >> 16u32) & 0xffffu128) as u16);
    assert(g[7] == group(a, 7) as nat && group(a, 7) == ((a >> 0u32) & 0xffffu128) as u16);
    assert(a == ((a >> 112u32) & 0xffffu128) * 0x10000_0000_0000_0000_0000_0000_0000 + ((a
        >> 96u32) & 0xffffu128) * 0x1_0000_0000_0000_0000_0000_0000 + ((a >> 80u32) & 0xffffu128)
        * 0x1_0000_0000_0000_0000_0000 + ((a >> 64u32) & 0xffffu128) * 0x1_0000_0000_0000_0000
        + ((a >> 48u32) & 0xffffu128) * 0x1_0000_0000_0000 + ((a >> 32u32) & 0xffffu128)
        * 0x1_0000_0000 + ((a >> 16u32) & 0xffffu128) * 0x1_0000 + ((a >> 0u32) & 0xffffu128))
        by (bit_vector);
}

/// The text of an IPv6 address other than an IPv4-mapped one reads back
/// as that address.
proof fn lemma_plain_ipv6_reads_back(a: u128)
    requires
        !is_v4_mapped(a),
    ensures
        ip_parse(ipv6_text(a)) == Some(IpAddress::V6(a)),
{
    let segs = groups(a);
    lemma_groups_value(a);
    let gv = segs.map_values(|g: u16| g as nat);
    lemma_zero_scan(segs, 8);
    let (cs, cl, bs, bl) = zero_scan(segs, 8);
    let t = ipv6_text(a);
    if bl > 1 {
        let head = segs.take(bs);
        let tail = segs.skip(bs + bl);
        let hj = hex_join(head);
        let tj = hex_join(tail);
        assert(t == hj + seq![':', ':'] + tj);
        lemma_colon_pieces_of_join(head);
        lemma_colon_pieces_of_join(tail);
        assert(!t.contains('.')) by {
            if t.contains('.') {
                let j = choose|j: int| 0 <= j < t.len() && t[j] == '.';
                if j < hj.len() {
                    assert(hj[j] == '.');
                    assert(hj.contains('.'));
                } else if j >= hj.len() + 2 {
                    assert(tj[j - hj.len() - 2] == '.');
                    assert(tj.contains('.'));
                }
            }
        }
        assert forall|j: int| 0 <= j < hj.len() implies !(#[trigger] t[j] == ':' && t[j + 1] == ':') by {
            if j + 1 < hj.len() {
                assert(t[j] == hj[j] && t[j + 1] == hj[j + 1]);
            } else {
                assert(t[j] == hj.last());
            }
        }
        lemma_double_colon_at(t, 0, hj.len() as int);
        assert(t.take(hj.len() as int) =~= hj);
        assert(t.skip(hj.len() as int + 2) =~= tj);
        lemma_groups_of_hex(head, false);
        lemma_groups_of_hex(tail, true);
        let h = head.map_values(|g: u16| g as nat);
        let tl = tail.map_values(|g: u16| g as nat);
        let z = Seq::new((8 - h.len() - tl.len()) as nat, |i: int| 0nat);
        assert(h + z + tl =~= gv) by {
            assert forall|i: int| 0 <= i < 8 implies #[trigger] (h + z + tl)[i] == gv[i] by {
                if i < bs {
                } else if i < bs + bl {
                    assert(segs[i] == 0);
                } else {
                    assert(tl[i - bs - bl] == gv[i]);
                }
            }
        }
        assert(ipv6_groups(t) == Some(gv));
    } else {
        assert(t == hex_join(segs));
        lemma_hex_join(segs);
        lemma_double_colon_none(t, 0);
        lemma_groups_of_hex(segs, true);
        assert(ipv6_groups(t) == Some(gv));
    }
    lemma_split_single(t, '.');
}

/// The text of an IPv4-mapped IPv6 address (`::ffff:a.b.c.d`) reads back
/// as that address.
proof fn lemma_mapped_ipv6_reads_back(a: u128)
    requires
        is_v4_mapped(a),
    ensures
        ip_parse(ipv6_text(a)) == Some(IpAddress::V6(a)),
{
    let low = (a & 0xffff_ffffu128) as u32;
    let v4 = ipv4_text(low);
    lemma_ipv4_text_value(low);
    let t = ipv6_text(a);
    let pre = seq![':', ':', 'f', 'f', 'f', 'f', ':'];
    assert(t == pre + v4);
    assert(ipv4_value(t) is None) by {
        lemma_index_of_from(t, '.', 0);
        match index_of(t, '.') {
            None => {
                assert(split_all(t, '.') == seq![t]);
            },
            Some(k) => {
                assert(t[k] == '.');
                assert(k >= 7) by {
                    if k < 7 {
                        assert(t[k] == pre[k]);
                    }
                }
                assert(split_all(t, '.')[0] == t.take(k));
                assert(!octet_ok(t.take(k)));
            },
        }
    }
    lemma_double_colon_at(t, 0, 0);
    assert(t.take(0) =~= Seq::<char>::empty());
    let ffff = seq!['f', 'f', 'f', 'f'];
    let tail = t.skip(2);
    assert(tail =~= ffff + seq![':'] + v4);
    assert(!ffff.contains(':')) by {
        if ffff.contains(':') {
            let j = choose|j: int| 0 <= j < ffff.len() && ffff[j] == ':';
            assert(ffff[j] == 'f');
        }
    }
    lemma_split_join(ffff, v4, ':');
    lemma_split_single(v4, ':');
    let parts = colon_pieces(tail);
    assert(parts =~= seq![ffff, v4]);
    assert(!hex_group_ok(v4));
    assert(!all_hex_groups(parts)) by {
        assert(!hex_group_ok(parts[1]));
    }
    assert(parts.drop_last() =~= seq![ffff]);
    assert(hex_group_ok(ffff)) by {
        assert forall|i: int| 0 <= i < ffff.len() implies is_hex_digit(#[trigger] ffff[i]) by {
            assert(ffff[i] == 'f');
        }
    }
    assert(all_hex_groups(parts.drop_last()));
    assert(parts.last() == v4);
    assert(digits_value(ffff, 16) == 65535) by {
        reveal_with_fuel(digits_value, 5);
        assert(digit_value('f') == 15);
        assert(ffff.drop_last() =~= seq!['f', 'f', 'f']);
        assert(ffff.drop_last().drop_last() =~= seq!['f', 'f']);
        assert(ffff.drop_last().drop_last().drop_last() =~= seq!['f']);
        assert(ffff.drop_last().drop_last().drop_last().drop_last() =~= Seq::<char>::empty());
    }
    assert(hex_values(parts.drop_last()) =~= seq![65535nat]);
    let tg = seq![65535nat, (low as nat) / 65536, (low as nat) % 65536];
    assert(groups_of(parts, true) == Some(tg));
    assert(groups_of(colon_pieces(t.take(0)), false) == Some(Seq::<nat>::empty())) by {
        assert(colon_pieces(t.take(0)) =~= Seq::<Seq<char>>::empty());
        assert(hex_values(Seq::<Seq<char>>::empty()) =~= Seq::<nat>::empty());
    }
    let g = Seq::<nat>::empty() + Seq::new(5, |i: int| 0nat) + tg;
    assert(ipv6_groups(t) == Some(g)) by {
        assert(Seq::new((8 - 0 - 3) as nat, |i: int| 0nat) =~= Seq::new(5, |i: int| 0nat));
    }
    assert(g[0] == 0 && g[1] == 0 && g[2] == 0 && g[3] == 0 && g[4] == 0);
    assert(g[5] == 65535 && g[6] == (low as nat) / 65536 && g[7] == (low as nat) % 65536);
    assert(a == 0xffffu128 * 0x1_0000_0000u128 + (a & 0xffff_ffffu128)) by (bit_vector)
        requires
            (a >> 32u32) == 0xffffu128,
    ;
    assert((a & 0xffff_ffffu128) < 0x1_0000_0000u128) by (bit_vector);
    assert(low as nat == (a & 0xffff_ffffu128) as nat);
    assert(((low as nat) / 65536) * 65536 + (low as nat) % 65536 == low as nat);
    assert(groups_value(g) == 65535 * 0x1_0000_0000 + ((low as nat) / 65536) * 0x1_0000 + (low as nat) % 65536);
    assert(groups_value(g) == a);
}

/// The text form of every IP address reads back as that address.
pub proof fn law_ip_text_reads_back(ip: IpAddress)
    ensures
        ip_parse(ip_text(ip)) == Some(ip),
{
    match ip {
        IpAddress::V4(a) => {
            lemma_ipv4_text_value(a);
        },
        IpAddress::V6(a) => {
            if is_v4_mapped(a) {
                lemma_mapped_ipv6_reads_back(a);
            } else {
                lemma_plain_ipv6_reads_back(a);
            }
        },
    }
}

/// The characters that IP address texts are made of.
pub open spec fn ip_char(c: char) -> bool {
    is_hex_digit(c) || c == ':' || c == '.'
}

/// Every character of the decimal text of a number is a digit; the digits
/// are worth the number.
proof fn lemma_dec_text(n: nat)
    ensures
        forall|i: int| 0 <= i < dec_text(n).len() ==> is_dec_digit(#[trigger] dec_text(n)[i]),
        digits_value(dec_text(n), 10) == n,
        dec_text(n).len() >= 1,
    decreases n,
{
    let t = dec_text(n);
    lemma_digit_char(n % 10);
    if n < 10 {
        assert(t == seq![digit_char(n)]);
        assert(t.drop_last() =~= Seq::<char>::empty());
        assert(digits_value(t, 10) == digits_value(t.drop_last(), 10) * 10 + digit_value(t.last()));
    } else {
        lemma_dec_text(n / 10);
        let p = dec_text(n / 10);
        assert(t == p.push(digit_char(n % 10)));
        assert(t.drop_last() =~= p);
        assert(digits_value(t, 10) == digits_value(p, 10) * 10 + digit_value(t.last()));
        assert forall|i: int| 0 <= i < t.len() implies is_dec_digit(#[trigger] t[i]) by {
            if i < p.len() {
                assert(t[i] == p[i]);
            }
        }
    }
}

/// Joined hexadecimal groups are made of hex digits and colons.
proof fn lemma_hex_join_chars(segs: Seq<u16>)
    ensures
        forall|i: int| 0 <= i < hex_join(segs).len() ==> ip_char(#[trigger] hex_join(segs)[i]),
    decreases segs.len(),
{
    if segs.len() == 1 {
        lemma_hex_text(segs[0] as nat);
    } else if segs.len() > 1 {
        let p = hex_join(segs.drop_last());
        let h = hex_text(segs.last() as nat);
        lemma_hex_join_chars(segs.drop_last());
        lemma_hex_text(segs.last() as nat);
        let s = hex_join(segs);
        assert(s == p + seq![':'] + h);
        assert forall|i: int| 0 <= i < s.len() implies ip_char(#[trigger] s[i]) by {
            if i < p.len() {
                assert(s[i] == p[i]);
            } else if i > p.len() {
                assert(s[i] == h[i - p.len() - 1]);
            }
        }
    }
}

/// Every character of the text of an IP address is a hex digit, a colon or
/// a dot.
proof fn lemma_ip_text_chars(ip: IpAddress)
    ensures
        forall|i: int| 0 <= i < ip_text(ip).len() ==> ip_char(#[trigger] ip_text(ip)[i]),
        ip_text(ip).len() >= 1,
{
    match ip {
        IpAddress::V4(a) => {
            lemma_ipv4_text_value(a);
            let t = ipv4_text(a);
            let ps = split_all(t, '.');
            assert forall|i: int| 0 <= i < t.len() implies ip_char(#[trigger] t[i]) by {
                lemma_ipv4_text_octets(a, i);
            }
        },
        IpAddress::V6(a) => {
            let t = ipv6_text(a);
            if is_v4_mapped(a) {
                let low = (a & 0xffff_ffffu128) as u32;
                let v4 = ipv4_text(low);
                lemma_ipv4_text_value(low);
                let pre = seq![':', ':', 'f', 'f', 'f', 'f', ':'];
                assert(t == pre + v4);
                assert('f' as u32 == 102 && 'a' as u32 == 97);
                assert forall|i: int| 0 <= i < t.len() implies ip_char(#[trigger] t[i]) by {
                    if i >= 7 {
                        lemma_ipv4_text_octets(low, i - 7);
                        assert(t[i] == v4[i - 7]);
                    } else {
                        assert(t[i] == pre[i]);
                    }
                }
            } else {
                let segs = groups(a);
                lemma_groups_value(a);
                lemma_zero_scan(segs, 8);
                let (cs, cl, bs, bl) = zero_scan(segs, 8);
                if bl > 1 {
                    let hj = hex_join(segs.take(bs));
                    let tj = hex_join(segs.skip(bs + bl));
                    lemma_hex_join_chars(segs.take(bs));
                    lemma_hex_join_chars(segs.skip(bs + bl));
                    assert(t == hj + seq![':', ':'] + tj);
                    assert forall|i: int| 0 <= i < t.len() implies ip_char(#[trigger] t[i]) by {
                        if i < hj.len() {
                            assert(t[i] == hj[i]);
                        } else if i >= hj.len() + 2 {
                            assert(t[i] == tj[i - hj.len() - 2]);
                        }
                    }
                } else {
                    lemma_hex_join_chars(segs);
                    lemma_hex_join(segs);
                }
            }
        },
    }
}

/// Each character of a dotted quad is a decimal digit or a dot.
proof fn lemma_ipv4_text_octets(a: u32, i: int)
    requires
        0 <= i < ipv4_text(a).len(),
    ensures
        is_dec_digit(ipv4_text(a)[i]) || ipv4_text(a)[i] == '.',
{
    let d0 = dec_text(octet(a, 0) as nat);
    let d1 = dec_text(octet(a, 1) as nat);
    let d2 = dec_text(octet(a, 2) as nat);
    let d3 = dec_text(octet(a, 3) as nat);
    lemma_dec_text(octet(a, 0) as nat);
    lemma_dec_text(octet(a, 1) as nat);
    lemma_dec_text(octet(a, 2) as nat);
    lemma_dec_text(octet(a, 3) as nat);
    let t = ipv4_text(a);
    if i < d0.len() {
        assert(t[i] == d0[i]);
    } else if i == d0.len() {
    } else if i < d0.len() + 1 + d1.len() {
        assert(t[i] == d1[i - d0.len() - 1]);
    } else if i == d0.len() + 1 + d1.len() {
    } else if i < d0.len() + 2 + d1.len() + d2.len() {
        assert(t[i] == d2[i - d0.len() - 2 - d1.len()]);
    } else if i == d0.len() + 2 + d1.len() + d2.len() {
    } else {
        assert(t[i] == d3[i - d0.len() - 3 - d1.len() - d2.len()]);
    }
}

/// The text of a socket address reads back as that address.
pub proof fn law_socket_text_reads_back(a: SocketAddress)
    ensures
        socket_parse(socket_text(a)) == Some(a),
{
    let ip = socket_ip(a);
    let port = socket_port(a);
    let it = ip_text(ip);
    lemma_ip_text_chars(ip);
    law_ip_text_reads_back(ip);
    let dp = dec_text(port as nat);
    lemma_dec_text(port as nat);
    let s = socket_text(a);
    assert(!it.contains('[') && !it.contains(']') && !it.contains('%')) by {
        assert('[' as u32 == 91 && ']' as u32 == 93 && '%' as u32 == 37);
        assert('0' as u32 == 48 && '9' as u32 == 57 && 'a' as u32 == 97 && 'f' as u32 == 102);
        assert('A' as u32 == 65 && 'F' as u32 == 70 && ':' as u32 == 58 && '.' as u32 == 46);
        if it.contains('[') || it.contains(']') || it.contains('%') {
            let j = choose|j: int| 0 <= j < it.len() && (it[j] == '[' || it[j] == ']' || it[j] == '%');
            assert(ip_char(it[j]));
        }
    }
    assert(dec_number(dp, 0x10000) == Some(port as nat));
    match a {
        SocketAddress::V4 { ip: x, .. } => {
            lemma_ipv4_text_value(x);
            assert(s == it + seq![':'] + dp);
            lemma_index_after_prefix(it, dp, ':', 0);
            assert(s.take(it.len() as int) =~= it);
            assert(s.skip(it.len() as int + 1) =~= dp);
            assert(s[0] == it[0]);
            assert(s[0] != '[') by {
                if s[0] == '[' {
                    assert(it.contains('['));
                }
            }
            assert(split_once(s, ':') == Some((it, dp)));
        },
        SocketAddress::V6 { scope_id, .. } => {
            let sp = if scope_id == 0 {
                Seq::<char>::empty()
            } else {
                seq!['%'] + dec_text(scope_id as nat)
            };
            let ds = dec_text(scope_id as nat);
            lemma_dec_text(scope_id as nat);
            let pre = seq!['['] + it + sp;
            let post = seq![':'] + dp;
            assert(s =~= pre + seq![']'] + post);
            assert(!pre.contains(']')) by {
                assert('[' as u32 == 91 && ']' as u32 == 93 && '%' as u32 == 37);
                assert('0' as u32 == 48 && '9' as u32 == 57);
                if pre.contains(']') {
                    let j = choose|j: int| 0 <= j < pre.len() && pre[j] == ']';
                    if j == 0 {
                    } else if j < 1 + it.len() {
                        assert(pre[j] == it[j - 1]);
                        assert(it.contains(']'));
                    } else if scope_id != 0 {
                        if j > 1 + it.len() {
                            assert(pre[j] == ds[j - 2 - it.len()]);
                        }
                    }
                }
            }
            lemma_index_after_prefix(pre, post, ']', 0);
            let c = pre.len() as int;
            assert(s.subrange(1, c) =~= it + sp);
            assert(s.skip(c + 1) =~= post);
            assert(post.skip(1) =~= dp);
            if scope_id == 0 {
                assert(it + sp =~= it);
                lemma_index_none(it, '%', 0);
                assert(split_once(it + sp, '%') is None);
            } else {
                assert(it + sp =~= it + seq!['%'] + ds);
                lemma_index_after_prefix(it, ds, '%', 0);
                assert((it + sp).take(it.len() as int) =~= it);
                assert((it + sp).skip(it.len() as int + 1) =~= ds);
                assert(split_once(it + sp, '%') == Some((it, ds)));
                assert(dec_number(ds, 0x1_0000_0000) == Some(scope_id as nat));
            }
            assert(ipv4_value(it) is None);
            assert(ipv6_groups(it) is Some);
        },
    }
}

} // verus!
