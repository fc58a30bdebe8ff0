//! Character-level text helpers: whitespace trimming, prefix and substring
//! search, line splitting and decimal rendering, each stated over `Seq<char>`.
use vstd::prelude::*;

verus! {

/// Unicode `White_Space`, the set that `char::is_whitespace` and `str::trim` use.
pub open spec fn is_ws(c: char) -> bool {
    ('\u{9}' <= c && c <= '\u{d}') || c == ' ' || c == '\u{85}' || c == '\u{a0}'
        || c == '\u{1680}' || ('\u{2000}' <= c && c <= '\u{200a}') || c == '\u{2028}'
        || c == '\u{2029}' || c == '\u{202f}' || c == '\u{205f}' || c == '\u{3000}'
}

/// The text with its leading whitespace removed.
pub open spec fn trim_front(s: Seq<char>) -> Seq<char>
    decreases s.len(),
{
    if s.len() > 0 && is_ws(s[0]) {
        trim_front(s.drop_first())
    } else {
        s
    }
}

/// The text with its trailing whitespace removed.
pub open spec fn trim_back(s: Seq<char>) -> Seq<char>
    decreases s.len(),
{
    if s.len() > 0 && is_ws(s.last()) {
        trim_back(s.drop_last())
    } else {
        s
    }
}

/// The text with whitespace removed at both ends.
pub open spec fn trim(s: Seq<char>) -> Seq<char> {
    trim_back(trim_front(s))
}

pub open spec fn starts_with(s: Seq<char>, p: Seq<char>) -> bool {
    p.len() <= s.len() && s.subrange(0, p.len() as int) == p
}

pub open spec fn occurs_at(s: Seq<char>, p: Seq<char>, i: int) -> bool {
    0 <= i && i + p.len() <= s.len() && s.subrange(i, i + p.len()) == p
}

/// The first position at or after `i` where `p` occurs in `s`.
pub open spec fn find_from(s: Seq<char>, p: Seq<char>, i: int) -> Option<int>
    decreases s.len() + 1 - i,
{
    if i < 0 || i + p.len() > s.len() {
        None
    } else if occurs_at(s, p, i) {
        Some(i)
    } else {
        find_from(s, p, i + 1)
    }
}

/// The first position where `p` occurs in `s`.
pub open spec fn find(s: Seq<char>, p: Seq<char>) -> Option<int> {
    find_from(s, p, 0)
}

pub open spec fn contains(s: Seq<char>, p: Seq<char>) -> bool {
    find(s, p) is Some
}

/// Spans `(start, end)` of the lines of `s`, scanning from `i` with the current
/// line begun at `start`. A line ends at `\n`; a `\r` just before that `\n` is
/// not part of the line; a final line needs no `\n`.
pub open spec fn spans_from(s: Seq<char>, i: int, start: int) -> Seq<(int, int)>
    decreases s.len() - i,
{
    if i >= s.len() {
        if start < s.len() {
            seq![(start, s.len() as int)]
        } else {
            seq![]
        }
    } else if s[i] == '\n' {
        let end = if i > start && s[i - 1] == '\r' {
            i - 1
        } else {
            i
        };
        seq![(start, end)] + spans_from(s, i + 1, i + 1)
    } else {
        spans_from(s, i + 1, start)
    }
}

/// Spans of the lines of `s`, as `str::lines` divides a text.
pub open spec fn line_spans(s: Seq<char>) -> Seq<(int, int)> {
    spans_from(s, 0, 0)
}

/// The lines of `s`, without their terminators.
pub open spec fn lines_of(s: Seq<char>) -> Seq<Seq<char>> {
    line_spans(s).map_values(|sp: (int, int)| s.subrange(sp.0, sp.1))
}

pub open spec fn spans_in_bounds(sp: Seq<(int, int)>, lo: int, hi: int) -> bool {
    forall|k: int| 0 <= k < sp.len() ==> lo <= #[trigger] sp[k].0 <= sp[k].1 <= hi
}

pub proof fn lemma_spans_from_bounds(s: Seq<char>, i: int, start: int)
    requires
        0 <= start <= i <= s.len(),
    ensures
        spans_in_bounds(spans_from(s, i, start), start, s.len() as int),
    decreases s.len() - i,
{
    if i < s.len() {
        if s[i] == '\n' {
            lemma_spans_from_bounds(s, i + 1, i + 1);
        } else {
            lemma_spans_from_bounds(s, i + 1, start);
        }
    }
}

/// Line spans come in text order.
pub proof fn lemma_spans_from_ordered(s: Seq<char>, i: int, start: int)
    requires
        0 <= start <= i <= s.len(),
    ensures
        forall|k: int, m: int|
            0 <= k <= m < spans_from(s, i, start).len() ==> (#[trigger] spans_from(s, i, start)[k]).0
                <= (#[trigger] spans_from(s, i, start)[m]).0,
    decreases s.len() - i,
{
    let sp = spans_from(s, i, start);
    if i < s.len() {
        if s[i] == '\n' {
            lemma_spans_from_ordered(s, i + 1, i + 1);
            lemma_spans_from_bounds(s, i + 1, i + 1);
            let rest = spans_from(s, i + 1, i + 1);
            assert(sp.len() == rest.len() + 1);
            assert(sp[0].0 == start);
            assert forall|k: int, m: int| 0 <= k <= m < sp.len() implies (#[trigger] sp[k]).0 <= (
            #[trigger] sp[m]).0 by {
                if k > 0 {
                    assert(sp[k] == rest[k - 1] && sp[m] == rest[m - 1]);
                } else if m > 0 {
                    assert(sp[m] == rest[m - 1]);
                    assert(spans_in_bounds(rest, i + 1, s.len() as int));
                    let r = rest[m - 1];
                    assert(i + 1 <= r.0);
                }
            }
        } else {
            lemma_spans_from_ordered(s, i + 1, start);
            assert(sp == spans_from(s, i + 1, start));
        }
    } else {
        assert forall|k: int, m: int| 0 <= k <= m < sp.len() implies (#[trigger] sp[k]).0 <= (
        #[trigger] sp[m]).0 by {
            assert(k == m);
        }
    }
}

pub proof fn lemma_line_spans_bounds(s: Seq<char>)
    ensures
        spans_in_bounds(line_spans(s), 0, s.len() as int),
        forall|k: int, m: int|
            0 <= k <= m < line_spans(s).len() ==> (#[trigger] line_spans(s)[k]).0 <= (
            #[trigger] line_spans(s)[m]).0,
{
    lemma_spans_from_bounds(s, 0, 0);
    lemma_spans_from_ordered(s, 0, 0);
}

/// Decimal digits of `n`, most significant first, with no leading zeros.
pub open spec fn decimal(n: nat) -> Seq<char>
    decreases n,
{
    if n < 10 {
        seq![digit_char(n)]
    } else {
        decimal(n / 10).push(digit_char(n % 10))
    }
}

pub open spec fn digit_char(d: nat) -> char {
    if d == 0 {
        '0'
    } else if d == 1 {
        '1'
    } else if d == 2 {
        '2'
    } else if d == 3 {
        '3'
    } else if d == 4 {
        '4'
    } else if d == 5 {
        '5'
    } else if d == 6 {
        '6'
    } else if d == 7 {
        '7'
    } else if d == 8 {
        '8'
    } else {
        '9'
    }
}

/// Relies on `str::chars`: the characters of `s`, in order.
#[verifier::external_body]
pub(crate) fn chars_of(s: &str) -> (r: Vec<char>)
    ensures
        r@ == s@,
{
    s.chars().collect()
}

/// Relies on `String`'s `FromIterator<char>`: the string of the given characters.
#[verifier::external_body]
pub(crate) fn string_of(v: &Vec<char>) -> (r: String)
    ensures
        r@ == v@,
{
    v.iter().collect()
}

pub fn is_whitespace(c: char) -> (r: bool)
    ensures
        r == is_ws(c),
{
    ('\u{9}' <= c && c <= '\u{d}') || c == ' ' || c == '\u{85}' || c == '\u{a0}'
        || c == '\u{1680}' || ('\u{2000}' <= c && c <= '\u{200a}') || c == '\u{2028}'
        || c == '\u{2029}' || c == '\u{202f}' || c == '\u{205f}' || c == '\u{3000}'
}

/// Appends the characters of `p` to `out`.
pub fn push_all(out: &mut Vec<char>, p: &Vec<char>)
    ensures
        final(out)@ == old(out)@ + p@,
{
    let mut i: usize = 0;
    while i < p.len()
        invariant
            i <= p@.len(),
            out@ == old(out)@ + p@.subrange(0, i as int),
        decreases p@.len() - i,
    {
        out.push(p[i]);
        i = i + 1;
        assert(p@.subrange(0, i as int) == p@.subrange(0, i - 1 as int).push(p@[i - 1]));
    }
    assert(p@.subrange(0, p@.len() as int) == p@);
}

/// Appends the characters of `p` to `out`.
pub fn push_str(out: &mut Vec<char>, p: &str)
    ensures
        final(out)@ == old(out)@ + p@,
{
    let v = chars_of(p);
    push_all(out, &v);
}

/// Appends the characters of `s[a..b]` to `out`.
pub fn push_range(out: &mut Vec<char>, s: &Vec<char>, a: usize, b: usize)
    requires
        a <= b <= s@.len(),
    ensures
        final(out)@ == old(out)@ + s@.subrange(a as int, b as int),
{
    let mut i: usize = a;
    while i < b
        invariant
            a <= i <= b <= s@.len(),
            out@ == old(out)@ + s@.subrange(a as int, i as int),
        decreases b - i,
    {
        out.push(s[i]);
        i = i + 1;
        assert(s@.subrange(a as int, i as int) == s@.subrange(a as int, i - 1 as int).push(
            s@[i - 1],
        ));
    }
}

/// The characters `s[a..b]` as a vector of their own.
pub fn copy_range(s: &Vec<char>, a: usize, b: usize) -> (r: Vec<char>)
    requires
        a <= b <= s@.len(),
    ensures
        r@ == s@.subrange(a as int, b as int),
{
    let mut r: Vec<char> = Vec::new();
    push_range(&mut r, s, a, b);
    r
}

/// Bounds of `trim(s[a..b])` within `s`.
pub fn trim_range(s: &Vec<char>, a: usize, b: usize) -> (r: (usize, usize))
    requires
        a <= b <= s@.len(),
    ensures
        a <= r.0 <= r.1 <= b,
        s@.subrange(r.0 as int, r.1 as int) == trim(s@.subrange(a as int, b as int)),
{
    let mut i: usize = a;
    while i < b && is_whitespace(s[i])
        invariant
            a <= i <= b <= s@.len(),
            trim_front(s@.subrange(a as int, b as int)) == trim_front(
                s@.subrange(i as int, b as int),
            ),
        decreases b - i,
    {
        assert(s@.subrange(i as int, b as int).drop_first() == s@.subrange(i + 1, b as int));
        i = i + 1;
    }
    assert(trim_front(s@.subrange(i as int, b as int)) == s@.subrange(i as int, b as int));
    let mut j: usize = b;
    while j > i && is_whitespace(s[j - 1])
        invariant
            a <= i <= j <= b <= s@.len(),
            trim(s@.subrange(a as int, b as int)) == trim_back(s@.subrange(i as int, j as int)),
        decreases j,
    {
        assert(s@.subrange(i as int, j as int).drop_last() == s@.subrange(i as int, j - 1));
        j = j - 1;
    }
    (i, j)
}

/// The text `s` without whitespace at either end.
pub fn trim_chars(s: &Vec<char>) -> (r: Vec<char>)
    ensures
        r@ == trim(s@),
{
    let (i, j) = trim_range(s, 0, s.len());
    assert(s@.subrange(0, s@.len() as int) == s@);
    copy_range(s, i, j)
}

/// Whether `p` occurs in `s` at position `i`.
pub fn occurs_at_exec(s: &Vec<char>, p: &Vec<char>, i: usize) -> (r: bool)
    ensures
        r == occurs_at(s@, p@, i as int),
{
    if i > s.len() || p.len() > s.len() - i {
        return false;
    }
    let n = s.len();
    let mut k: usize = 0;
    while k < p.len()
        invariant
            n == s@.len(),
            i + p@.len() <= s@.len(),
            k <= p@.len(),
            forall|m: int| 0 <= m < k ==> s@[i + m] == p@[m],
        decreases p@.len() - k,
    {
        if s[i + k] != p[k] {
            assert(s@.subrange(i as int, i + p@.len())[k as int] != p@[k as int]);
            return false;
        }
        k = k + 1;
    }
    assert(s@.subrange(i as int, i + p@.len()) == p@);
    true
}

/// Whether `s` begins with `p`.
pub fn starts_with_exec(s: &Vec<char>, p: &Vec<char>) -> (r: bool)
    ensures
        r == starts_with(s@, p@),
{
    occurs_at_exec(s, p, 0)
}

/// Whether `s` begins with the characters of `p`.
pub fn starts_with_str(s: &Vec<char>, p: &str) -> (r: bool)
    ensures
        r == starts_with(s@, p@),
{
    let pv = chars_of(p);
    starts_with_exec(s, &pv)
}

/// Whether `s` equals the characters of `p`.
pub fn eq_str(s: &Vec<char>, p: &str) -> (r: bool)
    ensures
        r == (s@ == p@),
{
    let pv = chars_of(p);
    if s.len() != pv.len() {
        return false;
    }
    let r = starts_with_exec(s, &pv);
    assert(s@.subrange(0, s@.len() as int) == s@);
    r
}

/// The first position at or after `from` where `p` occurs in `s`.
pub fn find_from_exec(s: &Vec<char>, p: &Vec<char>, from: usize) -> (r: Option<usize>)
    ensures
        match r {
            Some(i) => find_from(s@, p@, from as int) == Some(i as int),
            None => find_from(s@, p@, from as int) is None,
        },
{
    let mut i: usize = from;
    while i < s.len() && p.len() <= s.len() - i
        invariant
            from <= i,
            find_from(s@, p@, from as int) == find_from(s@, p@, i as int),
        decreases s@.len() - i,
    {
        if occurs_at_exec(s, p, i) {
            return Some(i);
        }
        i = i + 1;
    }
    if occurs_at_exec(s, p, i) {
        Some(i)
    } else {
        proof {
            if i + p@.len() <= s@.len() {
                assert(find_from(s@, p@, i + 1) is None);
            }
        }
        None
    }
}

/// The first position where `p` occurs in `s`.
pub fn find_exec(s: &Vec<char>, p: &Vec<char>) -> (r: Option<usize>)
    ensures
        match r {
            Some(i) => find(s@, p@) == Some(i as int),
            None => find(s@, p@) is None,
        },
{
    find_from_exec(s, p, 0)
}

/// Whether `p` occurs in `s`.
pub fn contains_exec(s: &Vec<char>, p: &Vec<char>) -> (r: bool)
    ensures
        r == contains(s@, p@),
{
    find_exec(s, p).is_some()
}

/// Whether the characters of `p` occur in `s`.
pub fn contains_str(s: &Vec<char>, p: &str) -> (r: bool)
    ensures
        r == contains(s@, p@),
{
    let pv = chars_of(p);
    contains_exec(s, &pv)
}

/// A found position leaves room for the pattern.
pub proof fn lemma_find_bounds(s: Seq<char>, p: Seq<char>, i: int)
    ensures
        find_from(s, p, i) matches Some(k) ==> i <= k && k + p.len() <= s.len(),
    decreases s.len() + 1 - i,
{
    if !(i < 0 || i + p.len() > s.len()) && !occurs_at(s, p, i) {
        lemma_find_bounds(s, p, i + 1);
    }
}

/// The characters of each vector.
pub open spec fn views(v: Seq<Vec<char>>) -> Seq<Seq<char>> {
    v.map_values(|x: Vec<char>| x@)
}

/// The spans of the lines of `s`.
pub fn line_spans_exec(s: &Vec<char>) -> (r: Vec<(usize, usize)>)
    ensures
        r@.len() == line_spans(s@).len(),
        forall|k: int|
            0 <= k < r@.len() ==> (#[trigger] r@[k]).0 as int == line_spans(s@)[k].0 && r@[k].1
                as int == line_spans(s@)[k].1,
        forall|k: int| 0 <= k < r@.len() ==> (#[trigger] r@[k]).0 <= r@[k].1 <= s@.len(),
{
    let mut out: Vec<(usize, usize)> = Vec::new();
    let mut start: usize = 0;
    let mut i: usize = 0;
    while i < s.len()
        invariant
            start <= i <= s@.len(),
            out@.map_values(|p: (usize, usize)| (p.0 as int, p.1 as int)) + spans_from(s@, i as int, start as int) == line_spans(s@),
            forall|k: int| 0 <= k < out@.len() ==> (#[trigger] out@[k]).0 <= out@[k].1 <= i,
        decreases s@.len() - i,
    {
        if s[i] == '\n' {
            let end = if i > start && s[i - 1] == '\r' {
                i - 1
            } else {
                i
            };
            let ghost before = out@;
            out.push((start, end));
            assert(out@.map_values(|p: (usize, usize)| (p.0 as int, p.1 as int)) =~= before.map_values(|p: (usize, usize)| (p.0 as int, p.1 as int)).push((start as int, end as int)));
            assert(out@.map_values(|p: (usize, usize)| (p.0 as int, p.1 as int)) + spans_from(s@, i + 1, i + 1) =~= before.map_values(|p: (usize, usize)| (p.0 as int, p.1 as int))
                + spans_from(s@, i as int, start as int));
            start = i + 1;
        }
        i = i + 1;
    }
    if start < s.len() {
        let ghost before = out@;
        out.push((start, s.len()));
        assert(out@.map_values(|p: (usize, usize)| (p.0 as int, p.1 as int)) =~= before.map_values(|p: (usize, usize)| (p.0 as int, p.1 as int)).push(
            (start as int, s@.len() as int),
        ));
    }
    assert forall|k: int| 0 <= k < out@.len() implies (#[trigger] out@[k]).0 as int == line_spans(
        s@,
    )[k].0 && out@[k].1 as int == line_spans(s@)[k].1 by {
        assert(out@.map_values(|p: (usize, usize)| (p.0 as int, p.1 as int))[k] == line_spans(s@)[k]);
    }
    out
}

/// The lines of `s`, each without its terminator.
pub fn lines_exec(s: &Vec<char>) -> (r: Vec<Vec<char>>)
    ensures
        r@.len() == lines_of(s@).len(),
        forall|k: int| 0 <= k < r@.len() ==> (#[trigger] r@[k])@ == lines_of(s@)[k],
{
    let spans = line_spans_exec(s);
    let mut out: Vec<Vec<char>> = Vec::new();
    let mut k: usize = 0;
    while k < spans.len()
        invariant
            k <= spans@.len(),
            spans@.len() == line_spans(s@).len(),
            forall|m: int|
                0 <= m < spans@.len() ==> (#[trigger] spans@[m]).0 as int == line_spans(s@)[m].0
                    && spans@[m].1 as int == line_spans(s@)[m].1,
            forall|m: int| 0 <= m < spans@.len() ==> (#[trigger] spans@[m]).0 <= spans@[m].1 <= s@.len(),
            out@.len() == k,
            forall|m: int| 0 <= m < k ==> (#[trigger] out@[m])@ == lines_of(s@)[m],
        decreases spans@.len() - k,
    {
        let (a, b) = spans[k];
        let line = copy_range(s, a, b);
        out.push(line);
        k = k + 1;
    }
    out
}

/// The decimal digits of `n`.
pub fn decimal_exec(n: usize) -> (r: Vec<char>)
    ensures
        r@ == decimal(n as nat),
    decreases n,
{
    let d = n % 10;
    let c = if d == 0 {
        '0'
    } else if d == 1 {
        '1'
    } else if d == 2 {
        '2'
    } else if d == 3 {
        '3'
    } else if d == 4 {
        '4'
    } else if d == 5 {
        '5'
    } else if d == 6 {
        '6'
    } else if d == 7 {
        '7'
    } else if d == 8 {
        '8'
    } else {
        '9'
    };
    if n < 10 {
        let mut r: Vec<char> = Vec::new();
        r.push(c);
        r
    } else {
        let mut r = decimal_exec(n / 10);
        r.push(c);
        r
    }
}

} // verus!
