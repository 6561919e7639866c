//! Small text helpers over the characters of a string.
use vstd::prelude::*;
use vstd::string::*;

verus! {

broadcast use vstd::string::axiom_spec_iter;

/// The characters of `s`, in order.
pub fn chars_of(s: &str) -> (v: Vec<char>)
    ensures
        v@ == s@,
{
    let mut v: Vec<char> = Vec::new();
    for c in it: s.chars()
        invariant
            v@ == it.seq().take(it.index() as int),
    {
        v.push(c);
    }
    v
}

/// Whether two strings hold the same characters.
pub fn str_eq(a: &str, b: &str) -> (res: bool)
    ensures
        res == (a@ == b@),
{
    let x = chars_of(a);
    let y = chars_of(b);
    if x.len() != y.len() {
        return false;
    }
    let mut i: usize = 0;
    while i < x.len()
        invariant
            x@ == a@,
            y@ == b@,
            x@.len() == y@.len(),
            i <= x@.len(),
            forall|j: int| 0 <= j < i ==> x@[j] == y@[j],
        decreases x@.len() - i,
    {
        if x[i] != y[i] {
            return false;
        }
        i = i + 1;
    }
    assert(x@ =~= y@);
    true
}

/// `String::push` appends one character: std documents it as appending the
/// given char to the end of the string, and nothing else.
pub assume_specification[ String::push ](s: &mut String, ch: char)
    ensures
        final(s)@ == old(s)@.push(ch),
;

/// The string of the characters `v[from..to]`.
pub fn string_of_range(v: &Vec<char>, from: usize, to: usize) -> (s: String)
    requires
        from <= to <= v@.len(),
    ensures
        s@ == v@.subrange(from as int, to as int),
{
    let mut s = String::new();
    let mut i: usize = from;
    while i < to
        invariant
            from <= i <= to <= v@.len(),
            s@ == v@.subrange(from as int, i as int),
        decreases to - i,
    {
        s.push(v[i]);
        assert(v@.subrange(from as int, i as int + 1) =~= v@.subrange(from as int, i as int).push(
            v@[i as int],
        ));
        i = i + 1;
    }
    s
}

/// The string of the characters of `v`.
pub fn string_of(v: &Vec<char>) -> (s: String)
    ensures
        s@ == v@,
{
    let s = string_of_range(v, 0, v.len());
    assert(v@.subrange(0, v@.len() as int) =~= v@);
    s
}

/// Whether `c` is white space in the Unicode sense (`char::is_whitespace`).
pub open spec fn is_unicode_whitespace(c: char) -> bool {
    ('\u{9}' <= c && c <= '\u{d}') || c == ' ' || c == '\u{85}' || c == '\u{a0}' || c == '\u{1680}'
        || ('\u{2000}' <= c && c <= '\u{200a}') || c == '\u{2028}' || c == '\u{2029}' || c
        == '\u{202f}' || c == '\u{205f}' || c == '\u{3000}'
}

/// Whether `c` is white space in the Unicode sense, as `char::is_whitespace`
/// documents it.
pub fn is_whitespace_char(c: char) -> (res: bool)
    ensures
        res == is_unicode_whitespace(c),
{
    ('\u{9}' <= c && c <= '\u{d}') || c == ' ' || c == '\u{85}' || c == '\u{a0}' || c == '\u{1680}'
        || ('\u{2000}' <= c && c <= '\u{200a}') || c == '\u{2028}' || c == '\u{2029}' || c
        == '\u{202f}' || c == '\u{205f}' || c == '\u{3000}'
}

/// `s` without white space at either end, as `str::trim` leaves it.
pub open spec fn spec_trim(s: Seq<char>) -> Seq<char>
    decreases s.len(),
{
    if s.len() == 0 {
        s
    } else if is_unicode_whitespace(s[0]) {
        spec_trim(s.subrange(1, s.len() as int))
    } else if is_unicode_whitespace(s.last()) {
        spec_trim(s.drop_last())
    } else {
        s
    }
}

/// The bounds of `cs[from..to]` without white space at either end.
pub fn trim_bounds(cs: &Vec<char>, from: usize, to: usize) -> (r: (usize, usize))
    requires
        from <= to <= cs@.len(),
    ensures
        from <= r.0 <= r.1 <= to,
        cs@.subrange(r.0 as int, r.1 as int) == spec_trim(cs@.subrange(from as int, to as int)),
{
    let mut a: usize = from;
    let mut b: usize = to;
    while a < b && (is_whitespace_char(cs[a]) || is_whitespace_char(cs[b - 1]))
        invariant
            from <= a <= b <= to <= cs@.len(),
            spec_trim(cs@.subrange(from as int, to as int)) == spec_trim(
                cs@.subrange(a as int, b as int),
            ),
        decreases b - a,
    {
        let ghost sub = cs@.subrange(a as int, b as int);
        if is_whitespace_char(cs[a]) {
            assert(sub.subrange(1, sub.len() as int) =~= cs@.subrange(a + 1, b as int));
            a = a + 1;
        } else {
            assert(sub.drop_last() =~= cs@.subrange(a as int, b - 1));
            b = b - 1;
        }
    }
    (a, b)
}

/// Whether `s` starts with `prefix`.
pub open spec fn starts_with(s: Seq<char>, prefix: Seq<char>) -> bool {
    prefix.len() <= s.len() && s.subrange(0, prefix.len() as int) == prefix
}

/// Whether `cs[from..to]` starts with the characters of `prefix`.
pub fn range_starts_with(cs: &Vec<char>, from: usize, to: usize, prefix: &Vec<char>) -> (res: bool)
    requires
        from <= to <= cs@.len(),
    ensures
        res == starts_with(cs@.subrange(from as int, to as int), prefix@),
{
    let ghost s = cs@.subrange(from as int, to as int);
    if prefix.len() > to - from {
        return false;
    }
    let mut i: usize = 0;
    while i < prefix.len()
        invariant
            prefix@.len() <= to - from,
            from <= to <= cs@.len(),
            s == cs@.subrange(from as int, to as int),
            i <= prefix@.len(),
            forall|j: int| 0 <= j < i ==> s[j] == prefix@[j],
        decreases prefix@.len() - i,
    {
        if cs[from + i] != prefix[i] {
            assert(s.subrange(0, prefix@.len() as int)[i as int] != prefix@[i as int]);
            return false;
        }
        i = i + 1;
    }
    assert(s.subrange(0, prefix@.len() as int) =~= prefix@);
    true
}

/// The first index at or after `i` where `s` holds `c`, or the length of `s`.
pub open spec fn first_index_from(s: Seq<char>, c: char, i: int) -> int
    decreases s.len() - i,
{
    if i < 0 || i >= s.len() {
        s.len() as int
    } else if s[i] == c {
        i
    } else {
        first_index_from(s, c, i + 1)
    }
}

pub proof fn lemma_first_index_from_bounds(s: Seq<char>, c: char, i: int)
    requires
        0 <= i,
    ensures
        i <= first_index_from(s, c, i) || first_index_from(s, c, i) == s.len(),
        first_index_from(s, c, i) <= s.len(),
        first_index_from(s, c, i) < s.len() ==> s[first_index_from(s, c, i)] == c,
        forall|j: int| i <= j < first_index_from(s, c, i) ==> s[j] != c,
    decreases s.len() - i,
{
    if i < s.len() && s[i] != c {
        lemma_first_index_from_bounds(s, c, i + 1);
    }
}

/// The first index at or after `i` where `cs` holds `c`, or its length.
pub fn find_char_from(cs: &Vec<char>, c: char, i: usize) -> (r: usize)
    requires
        i <= cs@.len(),
    ensures
        r as int == first_index_from(cs@, c, i as int),
        i <= r <= cs@.len(),
{
    let mut j: usize = i;
    while j < cs.len()
        invariant
            i <= j <= cs@.len(),
            first_index_from(cs@, c, i as int) == first_index_from(cs@, c, j as int),
        decreases cs@.len() - j,
    {
        if cs[j] == c {
            return j;
        }
        j = j + 1;
    }
    j
}

/// Whether `pat` occurs in `s` at index `j`.
pub open spec fn matches_at(s: Seq<char>, pat: Seq<char>, j: int) -> bool {
    0 <= j && j + pat.len() <= s.len() && s.subrange(j, j + pat.len()) == pat
}

/// The first index at or after `i` where `pat` occurs in `s`, or the length of `s`.
pub open spec fn find_from(s: Seq<char>, pat: Seq<char>, i: int) -> int
    decreases s.len() - i,
{
    if i < 0 || i >= s.len() || i + pat.len() > s.len() {
        s.len() as int
    } else if matches_at(s, pat, i) {
        i
    } else {
        find_from(s, pat, i + 1)
    }
}

pub proof fn lemma_find_from_bounds(s: Seq<char>, pat: Seq<char>, i: int)
    requires
        0 <= i,
    ensures
        find_from(s, pat, i) == s.len() || (i <= find_from(s, pat, i) && matches_at(
            s,
            pat,
            find_from(s, pat, i),
        )),
        find_from(s, pat, i) <= s.len(),
    decreases s.len() - i,
{
    if i < s.len() && i + pat.len() <= s.len() && !matches_at(s, pat, i) {
        lemma_find_from_bounds(s, pat, i + 1);
    }
}

fn matches_at_exec(cs: &Vec<char>, pat: &Vec<char>, j: usize) -> (res: bool)
    requires
        j + pat@.len() <= cs@.len(),
    ensures
        res == matches_at(cs@, pat@, j as int),
{
    let n = cs.len();
    let mut k: usize = 0;
    while k < pat.len()
        invariant
            n == cs@.len(),
            j + pat@.len() <= cs@.len(),
            k <= pat@.len(),
            forall|m: int| 0 <= m < k ==> cs@[j + m] == pat@[m],
        decreases pat@.len() - k,
    {
        if cs[j + k] != pat[k] {
            assert(cs@.subrange(j as int, j + pat@.len())[k as int] != pat@[k as int]);
            return false;
        }
        k = k + 1;
    }
    assert(cs@.subrange(j as int, j + pat@.len()) =~= pat@);
    true
}

/// The first index at or after `i` where `pat` occurs in `cs`, or its length.
pub fn find_pattern_from(cs: &Vec<char>, pat: &Vec<char>, i: usize) -> (r: usize)
    requires
        i <= cs@.len(),
    ensures
        r as int == find_from(cs@, pat@, i as int),
{
    let n = cs.len();
    let m = pat.len();
    if m > n || i > n - m || i == n {
        return n;
    }
    let mut j: usize = i;
    while j <= n - m
        invariant
            m <= n,
            n == cs@.len(),
            m == pat@.len(),
            i <= j,
            i < n,
            j <= n - m + 1,
            find_from(cs@, pat@, i as int) == find_from(cs@, pat@, j as int),
        decreases n - m + 1 - j,
    {
        if j == n {
            return n;
        }
        if matches_at_exec(cs, pat, j) {
            return j;
        }
        j = j + 1;
    }
    n
}

/// Whether `pat` occurs somewhere in `s`.
pub open spec fn contains_text(s: Seq<char>, pat: Seq<char>) -> bool {
    exists|j: int| matches_at(s, pat, j)
}

/// A non-empty `pat` does not occur from `i` up to where `find_from` stops.
pub proof fn lemma_find_from_first(s: Seq<char>, pat: Seq<char>, i: int, j: int)
    requires
        0 <= i <= j,
        j < find_from(s, pat, i),
        pat.len() > 0,
    ensures
        !matches_at(s, pat, j),
    decreases j - i,
{
    if i < s.len() && i + pat.len() <= s.len() && !matches_at(s, pat, i) && i < j {
        lemma_find_from_first(s, pat, i + 1, j);
    }
}

/// Whether the non-empty `pat` occurs in `cs`.
pub fn text_contains(cs: &Vec<char>, pat: &Vec<char>) -> (r: bool)
    requires
        pat@.len() > 0,
    ensures
        r == contains_text(cs@, pat@),
{
    let k = find_pattern_from(cs, pat, 0);
    proof {
        lemma_find_from_bounds(cs@, pat@, 0);
        if k < cs.len() {
            assert(matches_at(cs@, pat@, k as int));
        } else {
            assert forall|j: int| !matches_at(cs@, pat@, j) by {
                if 0 <= j < k {
                    lemma_find_from_first(cs@, pat@, 0, j);
                }
            }
        }
    }
    k < cs.len()
}

/// Whether `c` occurs in `cs`.
pub fn contains_char(cs: &Vec<char>, c: char) -> (r: bool)
    ensures
        r == cs@.contains(c),
{
    let mut i: usize = 0;
    while i < cs.len()
        invariant
            i <= cs@.len(),
            forall|j: int| 0 <= j < i ==> cs@[j] != c,
        decreases cs@.len() - i,
    {
        if cs[i] == c {
            assert(cs@[i as int] == c);
            return true;
        }
        i = i + 1;
    }
    false
}

/// The first index at or after `i` whose character is white space (when
/// `ws`) or is not (when `!ws`), or the length of `s`.
pub open spec fn first_ws_from(s: Seq<char>, i: int, ws: bool) -> int
    decreases s.len() - i,
{
    if i < 0 || i >= s.len() {
        s.len() as int
    } else if is_unicode_whitespace(s[i]) == ws {
        i
    } else {
        first_ws_from(s, i + 1, ws)
    }
}

pub proof fn lemma_first_ws_from(s: Seq<char>, i: int, ws: bool)
    requires
        0 <= i,
    ensures
        first_ws_from(s, i, ws) == s.len() || i <= first_ws_from(s, i, ws),
        first_ws_from(s, i, ws) <= s.len() || i > s.len(),
        first_ws_from(s, i, ws) < s.len() ==> is_unicode_whitespace(s[first_ws_from(s, i, ws)])
            == ws,
        forall|j: int| i <= j < first_ws_from(s, i, ws) && j < s.len() ==> is_unicode_whitespace(
            #[trigger] s[j],
        ) != ws,
    decreases s.len() - i,
{
    if i < s.len() && is_unicode_whitespace(s[i]) != ws {
        lemma_first_ws_from(s, i + 1, ws);
    }
}

/// The words of `s` from index `i` on, as `str::split_whitespace` gives
/// them: the runs of characters that are not white space.
pub open spec fn words_from(s: Seq<char>, i: int) -> Seq<Seq<char>>
    decreases s.len() - i,
{
    if i < 0 || i >= s.len() {
        Seq::empty()
    } else {
        let a = first_ws_from(s, i, false);
        if a >= s.len() {
            Seq::empty()
        } else {
            proof {
                lemma_first_ws_from(s, i, false);
                lemma_first_ws_from(s, a, true);
            }
            let b = first_ws_from(s, a, true);
            seq![s.subrange(a, b)] + words_from(s, b)
        }
    }
}

/// The words of `s` (see `words_from`).
pub open spec fn spec_words(s: Seq<char>) -> Seq<Seq<char>> {
    words_from(s, 0)
}

fn first_ws_exec(cs: &Vec<char>, i: usize, to: usize, ws: bool) -> (r: usize)
    requires
        i <= to <= cs@.len(),
    ensures
        r as int == first_ws_from(cs@.subrange(0, to as int), i as int, ws),
        i <= r <= to,
{
    let ghost s = cs@.subrange(0, to as int);
    let mut j: usize = i;
    while j < to
        invariant
            i <= j <= to <= cs@.len(),
            s == cs@.subrange(0, to as int),
            first_ws_from(s, i as int, ws) == first_ws_from(s, j as int, ws),
        decreases to - j,
    {
        if is_whitespace_char(cs[j]) == ws {
            assert(s[j as int] == cs@[j as int]);
            return j;
        }
        assert(s[j as int] == cs@[j as int]);
        j = j + 1;
    }
    j
}

/// The ranges of the words of `cs[0..to]` (see `spec_words`).
pub fn word_ranges(cs: &Vec<char>, to: usize) -> (ranges: Vec<(usize, usize)>)
    requires
        to <= cs@.len(),
    ensures
        ranges@.map_values(|r: (usize, usize)| cs@.subrange(r.0 as int, r.1 as int)) == spec_words(
            cs@.subrange(0, to as int),
        ),
        forall|k: int| 0 <= k < ranges@.len() ==> (#[trigger] ranges@[k]).0 <= ranges@[k].1 <= to,
{
    let ghost s = cs@.subrange(0, to as int);
    let ghost f = |r: (usize, usize)| cs@.subrange(r.0 as int, r.1 as int);
    let mut rs: Vec<(usize, usize)> = Vec::new();
    let mut i: usize = 0;
    while i < to
        invariant
            i <= to <= cs@.len(),
            s == cs@.subrange(0, to as int),
            f == (|r: (usize, usize)| cs@.subrange(r.0 as int, r.1 as int)),
            rs@.map_values(f) + words_from(s, i as int) == spec_words(s),
            forall|k: int| 0 <= k < rs@.len() ==> (#[trigger] rs@[k]).0 <= rs@[k].1 <= to,
        decreases to - i,
    {
        let a = first_ws_exec(cs, i, to, false);
        if a == to {
            assert(words_from(s, i as int) =~= Seq::<Seq<char>>::empty());
            i = to;
        } else {
            let b = first_ws_exec(cs, a, to, true);
            proof {
                lemma_first_ws_from(s, i as int, false);
                lemma_first_ws_from(s, a as int, true);
            }
            let ghost before = rs@;
            rs.push((a, b));
            proof {
                assert(s.subrange(a as int, b as int) =~= cs@.subrange(a as int, b as int));
                assert(rs@.map_values(f) =~= before.map_values(f).push(f((a, b))));
                assert(forall|k: int| 0 <= k < before.len() ==> rs@[k] == before[k]);
                assert(before.map_values(f) + words_from(s, i as int) =~= rs@.map_values(f)
                    + words_from(s, b as int));
            }
            i = b;
        }
    }
    proof {
        assert(words_from(s, i as int) =~= Seq::<Seq<char>>::empty());
        assert(rs@.map_values(f) + Seq::<Seq<char>>::empty() =~= rs@.map_values(f));
    }
    rs
}

/// The lines of `s` from index `p` on, as `str::lines` gives them: each ends
/// at a '\n', which is dropped together with a '\r' just before it; a last
/// line without '\n' is kept whole, and there is no empty line after a final '\n'.
pub open spec fn lines_from(s: Seq<char>, p: int) -> Seq<Seq<char>>
    decreases s.len() - p,
{
    if p < 0 || p >= s.len() {
        Seq::empty()
    } else {
        let n = first_index_from(s, '\n', p);
        if n >= s.len() {
            seq![s.subrange(p, s.len() as int)]
        } else {
            proof {
                lemma_first_index_from_bounds(s, '\n', p);
            }
            let line = s.subrange(p, n);
            let line = if line.len() > 0 && line.last() == '\r' {
                line.drop_last()
            } else {
                line
            };
            seq![line] + lines_from(s, n + 1)
        }
    }
}

/// The lines of `s` (see `lines_from`).
pub open spec fn spec_lines(s: Seq<char>) -> Seq<Seq<char>> {
    lines_from(s, 0)
}

/// The text at the ranges `rs` of `s`.
pub open spec fn range_texts(s: Seq<char>, rs: Seq<(usize, usize)>) -> Seq<Seq<char>> {
    rs.map_values(|r: (usize, usize)| s.subrange(r.0 as int, r.1 as int))
}

/// The ranges of the lines of `cs`.
pub fn line_ranges(cs: &Vec<char>) -> (rs: Vec<(usize, usize)>)
    ensures
        range_texts(cs@, rs@) == spec_lines(cs@),
        forall|i: int| 0 <= i < rs@.len() ==> (#[trigger] rs@[i]).0 <= rs@[i].1 <= cs@.len(),
{
    let n = cs.len();
    let mut rs: Vec<(usize, usize)> = Vec::new();
    let mut p: usize = 0;
    while p < n
        invariant
            n == cs@.len(),
            p <= n,
            range_texts(cs@, rs@) + lines_from(cs@, p as int) == spec_lines(cs@),
            forall|i: int| 0 <= i < rs@.len() ==> (#[trigger] rs@[i]).0 <= rs@[i].1 <= cs@.len(),
        decreases n - p,
    {
        let q = find_char_from(cs, '\n', p);
        proof {
            lemma_first_index_from_bounds(cs@, '\n', p as int);
        }
        let ghost before = range_texts(cs@, rs@);
        if q == n {
            let ghost old_rs = rs@;
            rs.push((p, n));
            assert(forall|j: int| 0 <= j < old_rs.len() ==> rs@[j] == old_rs[j]);
            assert(range_texts(cs@, rs@) =~= before.push(cs@.subrange(p as int, n as int)));
            assert(lines_from(cs@, n as int) =~= Seq::<Seq<char>>::empty());
            assert(before + lines_from(cs@, p as int) =~= range_texts(cs@, rs@) + lines_from(
                cs@,
                n as int,
            ));
            p = n;
        } else {
            let e = if q > p && cs[q - 1] == '\r' {
                q - 1
            } else {
                q
            };
            assert(cs@.subrange(p as int, e as int) == (if cs@.subrange(p as int, q as int).len()
                > 0 && cs@.subrange(p as int, q as int).last() == '\r' {
                cs@.subrange(p as int, q as int).drop_last()
            } else {
                cs@.subrange(p as int, q as int)
            }));
            let ghost old_rs = rs@;
            rs.push((p, e));
            assert(forall|j: int| 0 <= j < old_rs.len() ==> rs@[j] == old_rs[j]);
            assert(range_texts(cs@, rs@) =~= before.push(cs@.subrange(p as int, e as int)));
            assert(before + lines_from(cs@, p as int) =~= range_texts(cs@, rs@) + lines_from(
                cs@,
                q + 1,
            ));
            p = q + 1;
        }
    }
    assert(lines_from(cs@, p as int) =~= Seq::<Seq<char>>::empty());
    assert(range_texts(cs@, rs@) + Seq::<Seq<char>>::empty() =~= range_texts(cs@, rs@));
    rs
}

/// The ASCII lower-case form of a character.
pub open spec fn ascii_lower(c: char) -> char {
    if 'A' <= c && c <= 'Z' {
        ((c as u32) + 32) as char
    } else {
        c
    }
}

/// The ASCII lower-case form of a character (see `ascii_lower`).
pub fn to_ascii_lower(c: char) -> (r: char)
    ensures
        r == ascii_lower(c),
{
    if 'A' <= c && c <= 'Z' {
        let b: u8 = c as u8;
        assert(b == c as u32);
        ((b + 32) as char)
    } else {
        c
    }
}

} // verus!
