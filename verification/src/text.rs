//! Character-level text handling shared by the parsers and renderers:
//! searching, splitting, replacing, trimming and case folding over the
//! `Seq<char>` view of strings.
use vstd::prelude::*;

verus! {

/// Whether `c` is an ASCII upper-case letter.
pub open spec fn is_ascii_upper(c: char) -> bool {
    'A' <= c && c <= 'Z'
}

/// ASCII lower-casing of one character; every other character is kept.
pub open spec fn lower_char(c: char) -> char {
    if is_ascii_upper(c) {
        ((c as u32) + 32) as char
    } else {
        c
    }
}

/// ASCII lower-casing of a whole text.
pub open spec fn ascii_lower(s: Seq<char>) -> Seq<char> {
    s.map_values(|c: char| lower_char(c))
}

/// Unicode control characters (general category Cc).
pub open spec fn is_control(c: char) -> bool {
    ('\u{0}' <= c && c <= '\u{1f}') || ('\u{7f}' <= c && c <= '\u{9f}')
}

/// Unicode `White_Space` characters.
pub open spec fn is_whitespace(c: char) -> bool {
    ||| ('\u{9}' <= c && c <= '\u{d}')
    ||| c == ' '
    ||| c == '\u{85}'
    ||| c == '\u{a0}'
    ||| c == '\u{1680}'
    ||| ('\u{2000}' <= c && c <= '\u{200a}')
    ||| c == '\u{2028}'
    ||| c == '\u{2029}'
    ||| c == '\u{202f}'
    ||| c == '\u{205f}'
    ||| c == '\u{3000}'
}

/// Position of the first `c` in `s` at or after `i`.
pub open spec fn index_of_from(s: Seq<char>, c: char, i: int) -> Option<int>
    decreases s.len() - i,
{
    if i < 0 || i >= s.len() {
        None
    } else if s[i] == c {
        Some(i)
    } else {
        index_of_from(s, c, i + 1)
    }
}

/// Position of the first `c` in `s`.
pub open spec fn index_of(s: Seq<char>, c: char) -> Option<int> {
    index_of_from(s, c, 0)
}

/// Position of the last `c` in the first `n` characters of `s`.
pub open spec fn last_index_before(s: Seq<char>, c: char, n: int) -> Option<int>
    decreases n,
{
    if n <= 0 || n > s.len() {
        None
    } else if s[n - 1] == c {
        Some(n - 1)
    } else {
        last_index_before(s, c, n - 1)
    }
}

/// Position of the last `c` in `s`.
pub open spec fn last_index_of(s: Seq<char>, c: char) -> Option<int> {
    last_index_before(s, c, s.len() as int)
}

/// `s` split around its first `c` (std's `split_once`).
pub open spec fn split_once(s: Seq<char>, c: char) -> Option<(Seq<char>, Seq<char>)> {
    match index_of(s, c) {
        Some(i) => Some((s.take(i), s.skip(i + 1))),
        None => None,
    }
}

/// `s` split around its last `c` (std's `rsplit_once`).
pub open spec fn rsplit_once(s: Seq<char>, c: char) -> Option<(Seq<char>, Seq<char>)> {
    match last_index_of(s, c) {
        Some(i) => Some((s.take(i), s.skip(i + 1))),
        None => None,
    }
}

pub open spec fn starts_with(s: Seq<char>, p: Seq<char>) -> bool {
    p.len() <= s.len() && s.take(p.len() as int) == p
}

pub open spec fn ends_with(s: Seq<char>, p: Seq<char>) -> bool {
    p.len() <= s.len() && s.skip(s.len() - p.len()) == p
}

/// Every non-overlapping occurrence of `pat` in `s`, scanning from the
/// left, replaced by `rep` (std's `str::replace` for a non-empty pattern).
pub open spec fn replace_all(s: Seq<char>, pat: Seq<char>, rep: Seq<char>) -> Seq<char>
    decreases s.len(),
{
    if pat.len() == 0 || s.len() < pat.len() {
        s
    } else if s.take(pat.len() as int) == pat {
        rep + replace_all(s.skip(pat.len() as int), pat, rep)
    } else {
        seq![s[0]] + replace_all(s.skip(1), pat, rep)
    }
}

/// `s` without its leading white space.
pub open spec fn trim_start(s: Seq<char>) -> Seq<char>
    decreases s.len(),
{
    if s.len() > 0 && is_whitespace(s[0]) {
        trim_start(s.skip(1))
    } else {
        s
    }
}

/// `s` without its trailing white space.
pub open spec fn trim_end(s: Seq<char>) -> Seq<char>
    decreases s.len(),
{
    if s.len() > 0 && is_whitespace(s.last()) {
        trim_end(s.drop_last())
    } else {
        s
    }
}

/// `s` without leading and trailing white space (std's `str::trim`).
pub open spec fn trim(s: Seq<char>) -> Seq<char> {
    trim_end(trim_start(s))
}

/// `line` without one trailing carriage return.
pub open spec fn strip_cr(line: Seq<char>) -> Seq<char> {
    if line.len() > 0 && line.last() == '\r' {
        line.drop_last()
    } else {
        line
    }
}

/// The lines of `s` (std's `str::lines`): split at `\n`, a `\r` right
/// before a `\n` dropped, and no empty line after a final `\n`.
pub open spec fn lines_of(s: Seq<char>) -> Seq<Seq<char>>
    decreases s.len(),
{
    if s.len() == 0 {
        seq![]
    } else {
        match index_of(s, '\n') {
            Some(i) => {
                proof {
                    lemma_index_of_from(s, '\n', 0);
                }
                seq![strip_cr(s.take(i))] + lines_of(s.skip(i + 1))
            },
            None => seq![s],
        }
    }
}

/// The ASCII decimal digit for `d < 10`.
pub open spec fn digit_char(d: nat) -> char {
    ((d as u32) + 48) as char
}

/// The lower-case ASCII hexadecimal digit for `d < 16`.
pub open spec fn hex_digit_char(d: nat) -> char {
    if d < 10 {
        ((d as u32) + 48) as char
    } else {
        ((d as u32) + 87) as char
    }
}

/// Decimal rendering of `n`, without leading zeros.
pub open spec fn dec_text(n: nat) -> Seq<char>
    decreases n,
{
    if n < 10 {
        seq![digit_char(n)]
    } else {
        dec_text(n / 10).push(digit_char(n % 10))
    }
}

/// Lower-case hexadecimal rendering of `n`, without leading zeros.
pub open spec fn hex_text(n: nat) -> Seq<char>
    decreases n,
{
    if n < 16 {
        seq![hex_digit_char(n)]
    } else {
        hex_text(n / 16).push(hex_digit_char(n % 16))
    }
}

pub fn to_ascii_lower(c: char) -> (r: char)
    ensures
        r == lower_char(c),
{
    if 'A' <= c && c <= 'Z' {
        let b: u8 = (c as u8) + 32;
        b as char
    } else {
        c
    }
}

pub fn char_is_control(c: char) -> (r: bool)
    ensures
        r == is_control(c),
{
    ('\u{0}' <= c && c <= '\u{1f}') || ('\u{7f}' <= c && c <= '\u{9f}')
}

pub fn char_is_whitespace(c: char) -> (r: bool)
    ensures
        r == is_whitespace(c),
{
    ('\u{9}' <= c && c <= '\u{d}') || c == ' ' || c == '\u{85}' || c == '\u{a0}' || c
        == '\u{1680}' || ('\u{2000}' <= c && c <= '\u{200a}') || c == '\u{2028}' || c
        == '\u{2029}' || c == '\u{202f}' || c == '\u{205f}' || c == '\u{3000}'
}

/// Appends one character to a `String` (std's `String::push`).
#[verifier::external_body]
pub(crate) fn push_char(s: &mut String, c: char)
    ensures
        final(s)@ == old(s)@.push(c),
{
    s.push(c)
}

/// The characters of `s`, in order.
pub fn chars_of(s: &str) -> (v: Vec<char>)
    ensures
        v@ == s@,
{
    let n = s.unicode_len();
    let mut v: Vec<char> = Vec::new();
    let mut i: usize = 0;
    while i < n
        invariant
            n == s@.len(),
            i <= n,
            v@ == s@.subrange(0, i as int),
        decreases n - i,
    {
        v.push(s.get_char(i));
        i = i + 1;
    }
    v
}

/// A `String` holding exactly the characters of `v`.
pub fn string_of(v: &[char]) -> (s: String)
    ensures
        s@ == v@,
{
    let mut s = String::new();
    let mut i: usize = 0;
    while i < v.len()
        invariant
            i <= v.len(),
            s@ == v@.subrange(0, i as int),
        decreases v.len() - i,
    {
        push_char(&mut s, v[i]);
        i = i + 1;
    }
    s
}

/// A `String` holding `v[from..to]`.
pub fn string_of_range(v: &[char], from: usize, to: usize) -> (s: String)
    requires
        from <= to <= v.len(),
    ensures
        s@ == v@.subrange(from as int, to as int),
{
    let mut s = String::new();
    let mut i: usize = from;
    while i < to
        invariant
            from <= i <= to <= v.len(),
            s@ == v@.subrange(from as int, i as int),
        decreases to - i,
    {
        push_char(&mut s, v[i]);
        i = i + 1;
    }
    s
}

/// `s` followed by the characters of `t`.
pub fn append_str(s: &mut String, t: &str)
    ensures
        final(s)@ == old(s)@ + t@,
{
    s.append(t);
}

/// `v` extended by the characters of `t`.
pub fn extend_chars(v: &mut Vec<char>, t: &[char])
    ensures
        final(v)@ == old(v)@ + t@,
{
    let ghost start = v@;
    let mut i: usize = 0;
    while i < t.len()
        invariant
            i <= t.len(),
            v@ == start + t@.subrange(0, i as int),
        decreases t.len() - i,
    {
        v.push(t[i]);
        i = i + 1;
        assert(v@ == start + t@.subrange(0, i as int));
    }
    assert(t@.subrange(0, t@.len() as int) =~= t@);
}

/// Whether the characters of `v` are those of `s`.
pub fn chars_eq_str(v: &[char], s: &str) -> (r: bool)
    ensures
        r == (v@ == s@),
{
    let n = s.unicode_len();
    if v.len() != n {
        return false;
    }
    let mut i: usize = 0;
    while i < n
        invariant
            n == s@.len(),
            n == v@.len(),
            i <= n,
            forall|j: int| 0 <= j < i ==> v@[j] == s@[j],
        decreases n - i,
    {
        if v[i] != s.get_char(i) {
            return false;
        }
        i = i + 1;
    }
    assert(v@ =~= s@);
    true
}

/// Whether two character sequences are equal.
pub fn chars_eq(a: &[char], b: &[char]) -> (r: bool)
    ensures
        r == (a@ == b@),
{
    if a.len() != b.len() {
        return false;
    }
    let mut i: usize = 0;
    while i < a.len()
        invariant
            a@.len() == b@.len(),
            i <= a.len(),
            forall|j: int| 0 <= j < i ==> a@[j] == b@[j],
        decreases a.len() - i,
    {
        if a[i] != b[i] {
            return false;
        }
        i = i + 1;
    }
    assert(a@ =~= b@);
    true
}

/// Whether two strings hold the same characters.
pub fn str_eq(a: &str, b: &str) -> (r: bool)
    ensures
        r == (a@ == b@),
{
    let av = chars_of(a);
    chars_eq_str(av.as_slice(), b)
}

/// The characters `v[from..to]` as a vector of their own.
pub fn sub_chars(v: &[char], from: usize, to: usize) -> (r: Vec<char>)
    requires
        from <= to <= v.len(),
    ensures
        r@ == v@.subrange(from as int, to as int),
{
    let mut r: Vec<char> = Vec::new();
    let mut i: usize = from;
    while i < to
        invariant
            from <= i <= to <= v.len(),
            r@ == v@.subrange(from as int, i as int),
        decreases to - i,
    {
        r.push(v[i]);
        i = i + 1;
    }
    r
}

/// Position of the first `c` in `v` at or after `from`.
pub fn find_char_from(v: &[char], c: char, from: usize) -> (r: Option<usize>)
    requires
        from <= v.len(),
    ensures
        r matches Some(i) ==> index_of_from(v@, c, from as int) == Some(i as int) && from <= i
            < v.len() && v@[i as int] == c,
        r is None ==> index_of_from(v@, c, from as int) is None,
{
    let mut i: usize = from;
    while i < v.len()
        invariant
            from <= i <= v.len(),
            index_of_from(v@, c, from as int) == index_of_from(v@, c, i as int),
        decreases v.len() - i,
    {
        if v[i] == c {
            return Some(i);
        }
        i = i + 1;
    }
    None
}

/// Position of the first `c` in `v`.
pub fn find_char(v: &[char], c: char) -> (r: Option<usize>)
    ensures
        r matches Some(i) ==> index_of(v@, c) == Some(i as int) && i < v.len() && v@[i as int]
            == c,
        r is None ==> index_of(v@, c) is None,
{
    find_char_from(v, c, 0)
}

/// Position of the last `c` in `v`.
pub fn rfind_char(v: &[char], c: char) -> (r: Option<usize>)
    ensures
        r matches Some(i) ==> last_index_of(v@, c) == Some(i as int) && i < v.len() && v@[i as int]
            == c,
        r is None ==> last_index_of(v@, c) is None,
{
    let mut n: usize = v.len();
    while n > 0
        invariant
            n <= v.len(),
            last_index_of(v@, c) == last_index_before(v@, c, n as int),
        decreases n,
    {
        if v[n - 1] == c {
            return Some(n - 1);
        }
        n = n - 1;
    }
    None
}

/// A found position of `c` is an occurrence, and nothing before it is one.
pub proof fn lemma_index_of_from(s: Seq<char>, c: char, i: int)
    requires
        0 <= i,
    ensures
        index_of_from(s, c, i) matches Some(k) ==> (i <= k < s.len() && s[k] == c && forall|
            j: int,
        | i <= j < k ==> s[j] != c),
        index_of_from(s, c, i) is None ==> forall|j: int| i <= j < s.len() ==> s[j] != c,
    decreases s.len() - i,
{
    if i < s.len() && s[i] != c {
        lemma_index_of_from(s, c, i + 1);
    }
}

/// Whether `pat` occurs in `v` at position `i`.
pub fn matches_at(v: &[char], i: usize, pat: &[char]) -> (r: bool)
    requires
        i <= v.len(),
    ensures
        r == (pat.len() <= v.len() - i && v@.skip(i as int).take(pat.len() as int) == pat@),
{
    if pat.len() > v.len() - i {
        return false;
    }
    let mut k: usize = 0;
    while k < pat.len()
        invariant
            pat.len() <= v.len() - i,
            k <= pat.len(),
            forall|j: int| 0 <= j < k ==> v@[i + j] == pat@[j],
        decreases pat.len() - k,
    {
        if v[i + k] != pat[k] {
            assert(v@.skip(i as int).take(pat.len() as int)[k as int] != pat@[k as int]);
            return false;
        }
        k = k + 1;
    }
    assert(v@.skip(i as int).take(pat.len() as int) =~= pat@);
    true
}

/// Replacing in the tail of a text, one step at a time.
proof fn lemma_replace_step(s: Seq<char>, pat: Seq<char>, rep: Seq<char>, i: int)
    requires
        0 <= i < s.len(),
        pat.len() > 0,
    ensures
        (pat.len() <= s.len() - i && s.skip(i).take(pat.len() as int) == pat) ==> replace_all(
            s.skip(i),
            pat,
            rep,
        ) == rep + replace_all(s.skip(i + pat.len()), pat, rep),
        !(pat.len() <= s.len() - i && s.skip(i).take(pat.len() as int) == pat) ==> replace_all(
            s.skip(i),
            pat,
            rep,
        ) == seq![s[i]] + replace_all(s.skip(i + 1), pat, rep),
{
    let t = s.skip(i);
    if pat.len() <= s.len() - i {
        assert(t.skip(pat.len() as int) =~= s.skip(i + pat.len()));
    }
    assert(t.skip(1) =~= s.skip(i + 1));
    if s.len() - i < pat.len() {
        assert(s.skip(i + 1).len() < pat.len());
        assert(t =~= seq![s[i]] + s.skip(i + 1));
    }
}

/// Every occurrence of `pat` in `s` replaced by `rep`, left to right.
pub fn replace_all_exec(s: &[char], pat: &[char], rep: &[char]) -> (r: Vec<char>)
    requires
        pat.len() > 0,
    ensures
        r@ == replace_all(s@, pat@, rep@),
{
    let mut out: Vec<char> = Vec::new();
    let mut i: usize = 0;
    assert(s@.skip(0) =~= s@);
    while i < s.len()
        invariant
            i <= s.len(),
            pat@.len() > 0,
            out@ + replace_all(s@.skip(i as int), pat@, rep@) == replace_all(s@, pat@, rep@),
        decreases s.len() - i,
    {
        proof {
            lemma_replace_step(s@, pat@, rep@, i as int);
        }
        if matches_at(s, i, pat) {
            let ghost before = out@;
            extend_chars(&mut out, rep);
            assert(out@ == before + rep@);
            i = i + pat.len();
            assert(before + (rep@ + replace_all(s@.skip(i as int), pat@, rep@)) =~= out@
                + replace_all(s@.skip(i as int), pat@, rep@));
        } else {
            let ghost before = out@;
            out.push(s[i]);
            i = i + 1;
            assert(before + (seq![s@[i - 1]] + replace_all(s@.skip(i as int), pat@, rep@))
                =~= out@ + replace_all(s@.skip(i as int), pat@, rep@));
        }
    }
    assert(s@.skip(s.len() as int) =~= Seq::<char>::empty());
    assert(out@ + Seq::<char>::empty() =~= out@);
    out
}

/// `s` with every occurrence of `pat` replaced by `rep`.
pub fn replace_str(s: &[char], pat: &str, rep: &str) -> (r: Vec<char>)
    requires
        pat@.len() > 0,
    ensures
        r@ == replace_all(s@, pat@, rep@),
{
    let p = chars_of(pat);
    let q = chars_of(rep);
    replace_all_exec(s, p.as_slice(), q.as_slice())
}

/// The character sequences of a sequence of strings.
pub open spec fn views(v: Seq<String>) -> Seq<Seq<char>> {
    v.map_values(|s: String| s@)
}

/// Searching from `p` finds what searching the suffix from `p` finds, shifted.
pub proof fn lemma_index_of_skip(s: Seq<char>, c: char, p: int, i: int)
    requires
        0 <= p <= i,
        p <= s.len(),
    ensures
        index_of_from(s, c, i) == (match index_of_from(s.skip(p), c, i - p) {
            Some(k) => Some(k + p),
            None => None,
        }),
    decreases s.len() - i,
{
    if i < s.len() && s[i] != c {
        lemma_index_of_skip(s, c, p, i + 1);
    }
}

/// The lines of `v` (std's `str::lines`).
pub fn lines_exec(v: &[char]) -> (r: Vec<Vec<char>>)
    ensures
        r@.map_values(|l: Vec<char>| l@) == lines_of(v@),
{
    let mut out: Vec<Vec<char>> = Vec::new();
    let mut p: usize = 0;
    assert(v@.skip(0) =~= v@);
    assert(out@.map_values(|l: Vec<char>| l@) + lines_of(v@) =~= lines_of(v@));
    while p < v.len()
        invariant
            p <= v.len(),
            lines_of(v@) == out@.map_values(|l: Vec<char>| l@) + lines_of(v@.skip(p as int)),
        decreases v.len() - p,
    {
        let ghost s2 = v@.skip(p as int);
        proof {
            lemma_index_of_skip(v@, '\n', p as int, p as int);
        }
        match find_char_from(v, '\n', p) {
            Some(i) => {
                let mut line = sub_chars(v, p, i);
                if line.len() > 0 && line[line.len() - 1] == '\r' {
                    line.pop();
                }
                proof {
                    assert(index_of(s2, '\n') == Some(i - p));
                    assert(s2.take(i - p) =~= v@.subrange(p as int, i as int));
                    assert(s2.skip(i - p + 1) =~= v@.skip(i + 1));
                    assert(line@ == strip_cr(s2.take(i - p)));
                }
                let ghost before = out@;
                out.push(line);
                assert(out@.map_values(|l: Vec<char>| l@) =~= before.map_values(|l: Vec<char>| l@).push(line@));
                p = i + 1;
            },
            None => {
                let line = sub_chars(v, p, v.len());
                proof {
                    assert(index_of(s2, '\n') is None);
                    assert(s2 =~= v@.subrange(p as int, v.len() as int));
                }
                let ghost before = out@;
                out.push(line);
                assert(out@.map_values(|l: Vec<char>| l@) =~= before.map_values(|l: Vec<char>| l@).push(line@));
                assert(v@.skip(v.len() as int) =~= Seq::<char>::empty());
                p = v.len();
            },
        }
    }
    assert(v@.skip(p as int) =~= Seq::<char>::empty());
    assert(out@.map_values(|l: Vec<char>| l@) + Seq::<Seq<char>>::empty() =~= out@.map_values(|l: Vec<char>| l@));
    out
}

/// The pieces of `s` between the occurrences of `c` (std's `str::split`
/// with a character): one more piece than there are occurrences.
pub open spec fn split_all(s: Seq<char>, c: char) -> Seq<Seq<char>>
    decreases s.len(),
{
    match index_of(s, c) {
        Some(i) => {
            proof {
                lemma_index_of_from(s, c, 0);
            }
            seq![s.take(i)] + split_all(s.skip(i + 1), c)
        },
        None => seq![s],
    }
}

/// The pieces of `v` between the occurrences of `c`.
pub fn split_all_exec(v: &[char], c: char) -> (r: Vec<Vec<char>>)
    ensures
        r@.map_values(|l: Vec<char>| l@) == split_all(v@, c),
{
    let mut out: Vec<Vec<char>> = Vec::new();
    let mut p: usize = 0;
    assert(v@.skip(0) =~= v@);
    assert(out@.map_values(|l: Vec<char>| l@) + split_all(v@, c) =~= split_all(v@, c));
    loop
        invariant
            p <= v.len(),
            split_all(v@, c) == out@.map_values(|l: Vec<char>| l@) + split_all(v@.skip(p as int), c),
        decreases v.len() - p,
    {
        let ghost s2 = v@.skip(p as int);
        proof {
            lemma_index_of_skip(v@, c, p as int, p as int);
        }
        match find_char_from(v, c, p) {
            Some(i) => {
                let piece = sub_chars(v, p, i);
                proof {
                    assert(index_of(s2, c) == Some(i - p));
                    assert(s2.take(i - p) =~= v@.subrange(p as int, i as int));
                    assert(s2.skip(i - p + 1) =~= v@.skip(i + 1));
                }
                let ghost before = out@;
                out.push(piece);
                assert(out@.map_values(|l: Vec<char>| l@) =~= before.map_values(|l: Vec<char>| l@).push(piece@));
                p = i + 1;
            },
            None => {
                let piece = sub_chars(v, p, v.len());
                proof {
                    assert(index_of(s2, c) is None);
                    assert(s2 =~= v@.subrange(p as int, v.len() as int));
                }
                let ghost before = out@;
                out.push(piece);
                assert(out@.map_values(|l: Vec<char>| l@) =~= before.map_values(|l: Vec<char>| l@).push(piece@));
                return out;
            },
        }
    }
}

/// Whether `v` ends with `p`.
pub fn ends_with_chars(v: &[char], p: &[char]) -> (r: bool)
    ensures
        r == ends_with(v@, p@),
{
    if p.len() > v.len() {
        return false;
    }
    let start = v.len() - p.len();
    let r = matches_at(v, start, p);
    assert(v@.skip(start as int).take(p.len() as int) =~= v@.skip(start as int));
    r
}

/// ASCII lower-cased copy of `v`.
pub fn lower_chars(v: &[char]) -> (r: Vec<char>)
    ensures
        r@ == ascii_lower(v@),
{
    let mut out: Vec<char> = Vec::new();
    let mut i: usize = 0;
    while i < v.len()
        invariant
            i <= v.len(),
            out@ =~= ascii_lower(v@.subrange(0, i as int)),
        decreases v.len() - i,
    {
        out.push(to_ascii_lower(v[i]));
        i = i + 1;
    }
    assert(v@.subrange(0, v@.len() as int) =~= v@);
    out
}

/// ASCII lower-cased copy of `s` (std's `str::to_ascii_lowercase`).
pub fn lower_str(s: &str) -> (r: String)
    ensures
        r@ == ascii_lower(s@),
{
    let v = chars_of(s);
    let l = lower_chars(v.as_slice());
    string_of(l.as_slice())
}

proof fn lemma_trim_start_skip(s: Seq<char>, i: int)
    requires
        0 <= i <= s.len(),
        forall|j: int| 0 <= j < i ==> is_whitespace(s[j]),
    ensures
        trim_start(s) == trim_start(s.skip(i)),
    decreases i,
{
    if i > 0 {
        assert(s.skip(1).skip(i - 1) =~= s.skip(i));
        lemma_trim_start_skip(s.skip(1), i - 1);
    } else {
        assert(s.skip(0) =~= s);
    }
}

proof fn lemma_trim_end_take(s: Seq<char>, n: int)
    requires
        0 <= n <= s.len(),
        forall|j: int| n <= j < s.len() ==> is_whitespace(s[j]),
    ensures
        trim_end(s) == trim_end(s.take(n)),
    decreases s.len() - n,
{
    if n < s.len() {
        assert(s.drop_last().take(n) =~= s.take(n));
        lemma_trim_end_take(s.drop_last(), n);
    } else {
        assert(s.take(n) =~= s);
    }
}

/// `s` without leading and trailing white space.
pub fn trim_chars(s: &[char]) -> (r: Vec<char>)
    ensures
        r@ == trim(s@),
{
    let mut start: usize = 0;
    while start < s.len() && char_is_whitespace(s[start])
        invariant
            start <= s.len(),
            forall|j: int| 0 <= j < start ==> is_whitespace(s@[j]),
        decreases s.len() - start,
    {
        start = start + 1;
    }
    proof {
        lemma_trim_start_skip(s@, start as int);
    }
    let ghost t = s@.skip(start as int);
    assert(start < s.len() ==> !is_whitespace(t[0]));
    assert(trim_start(t) == t);
    let mut end: usize = s.len();
    while end > start && char_is_whitespace(s[end - 1])
        invariant
            start <= end <= s.len(),
            forall|j: int| end <= j < s.len() ==> is_whitespace(s@[j]),
        decreases end,
    {
        end = end - 1;
    }
    proof {
        lemma_trim_end_take(t, end - start);
        let u = t.take(end - start);
        assert(u =~= s@.subrange(start as int, end as int));
        if u.len() > 0 {
            assert(u.last() == s@[end - 1]);
        }
        assert(trim_end(u) == u);
    }
    let mut out: Vec<char> = Vec::new();
    let mut i: usize = start;
    while i < end
        invariant
            start <= i <= end <= s.len(),
            out@ == s@.subrange(start as int, i as int),
        decreases end - i,
    {
        out.push(s[i]);
        i = i + 1;
    }
    out
}

/// Appends the decimal digits of `n` to `out`.
pub fn push_dec(n: u32, out: &mut Vec<char>)
    ensures
        final(out)@ == old(out)@ + dec_text(n as nat),
    decreases n,
{
    if n >= 10 {
        push_dec(n / 10, out);
    }
    let d: u32 = n % 10;
    out.push(((d as u8) + 48) as char);
    proof {
        assert(digit_char(d as nat) == ((d as u8) + 48) as char);
        if n >= 10 {
            assert(dec_text(n as nat) == dec_text((n / 10) as nat).push(digit_char(d as nat)));
        } else {
            assert(dec_text(n as nat) == seq![digit_char(d as nat)]);
        }
    }
}

/// Decimal rendering of a byte.
pub fn u8_dec_chars(n: u8) -> (r: Vec<char>)
    ensures
        r@ == dec_text(n as nat),
{
    let mut out: Vec<char> = Vec::new();
    proof {
        reveal_with_fuel(dec_text, 3);
    }
    if n >= 100 {
        let a: u8 = n / 100;
        let b: u8 = (n / 10) % 10;
        let c: u8 = n % 10;
        out.push((a + 48) as char);
        out.push((b + 48) as char);
        out.push((c + 48) as char);
        proof {
            assert(dec_text((n / 100) as nat) == seq![digit_char(a as nat)]);
            assert(dec_text((n / 10) as nat) == dec_text(((n / 10) / 10) as nat).push(
                digit_char(((n / 10) % 10) as nat),
            ));
            assert((n / 10) / 10 == n / 100);
        }
    } else if n >= 10 {
        let b: u8 = n / 10;
        let c: u8 = n % 10;
        out.push((b + 48) as char);
        out.push((c + 48) as char);
    } else {
        out.push((n + 48) as char);
    }
    assert(out@ =~= dec_text(n as nat));
    out
}

/// Lower-case hexadecimal rendering of a 16-bit value.
pub fn u16_hex_chars(n: u16) -> (r: Vec<char>)
    ensures
        r@ == hex_text(n as nat),
{
    proof {
        reveal_with_fuel(hex_text, 4);
    }
    let m: u16 = n;
    if m < 16 {
        let mut out: Vec<char> = Vec::new();
        out.push(hex_digit(m));
        assert(out@ =~= hex_text(n as nat));
        return out;
    }
    let d0 = hex_digit(m % 16);
    let m1: u16 = m / 16;
    if m1 < 16 {
        let mut out: Vec<char> = Vec::new();
        out.push(hex_digit(m1));
        out.push(d0);
        assert(out@ =~= hex_text(n as nat));
        return out;
    }
    let d1 = hex_digit(m1 % 16);
    let m2: u16 = m1 / 16;
    if m2 < 16 {
        let mut out: Vec<char> = Vec::new();
        out.push(hex_digit(m2));
        out.push(d1);
        out.push(d0);
        assert(hex_text(m1 as nat) =~= seq![hex_digit_char(m2 as nat), d1]);
        assert(out@ =~= hex_text(n as nat));
        return out;
    }
    let d2 = hex_digit(m2 % 16);
    let m3: u16 = m2 / 16;
    let mut out: Vec<char> = Vec::new();
    out.push(hex_digit(m3));
    out.push(d2);
    out.push(d1);
    out.push(d0);
    assert(m3 < 16);
    assert(hex_text(m2 as nat) =~= seq![hex_digit_char(m3 as nat), d2]);
    assert(hex_text(m1 as nat) =~= seq![hex_digit_char(m3 as nat), d2, d1]);
    assert(out@ =~= hex_text(n as nat));
    out
}

fn hex_digit(d: u16) -> (c: char)
    requires
        d < 16,
    ensures
        c == hex_digit_char(d as nat),
{
    if d < 10 {
        ((d as u8) + 48) as char
    } else {
        ((d as u8) + 87) as char
    }
}

} // verus!
