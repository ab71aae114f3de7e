//! Character-level helpers shared by the parsers: Unicode whitespace,
//! trimming and splitting at a separator.
use vstd::prelude::*;

verus! {

/// Unicode `White_Space`, as `char::is_whitespace` decides it.
pub open spec fn is_ws(c: char) -> bool {
    ('\u{9}' <= c && c <= '\u{d}') || c == ' ' || c == '\u{85}' || c == '\u{a0}'
        || c == '\u{1680}' || ('\u{2000}' <= c && c <= '\u{200a}') || c == '\u{2028}'
        || c == '\u{2029}' || c == '\u{202f}' || c == '\u{205f}' || c == '\u{3000}'
}

/// `s` without its leading whitespace.
pub open spec fn trim_start(s: Seq<char>) -> Seq<char>
    decreases s.len(),
{
    if s.len() > 0 && is_ws(s[0]) {
        trim_start(s.drop_first())
    } else {
        s
    }
}

/// `s` without its trailing whitespace.
pub open spec fn trim_end(s: Seq<char>) -> Seq<char>
    decreases s.len(),
{
    if s.len() > 0 && is_ws(s.last()) {
        trim_end(s.drop_last())
    } else {
        s
    }
}

/// `s` without leading and trailing whitespace.
pub open spec fn trim(s: Seq<char>) -> Seq<char> {
    trim_end(trim_start(s))
}

/// The number of characters before the first `sep` in `s` (all of `s` if it
/// holds none).
pub open spec fn segment_len(s: Seq<char>, sep: char) -> nat
    decreases s.len(),
{
    if s.len() == 0 || s[0] == sep {
        0
    } else {
        1 + segment_len(s.drop_first(), sep)
    }
}

/// The pieces of `s` between occurrences of `sep`: one more piece than `s`
/// holds separators, empty pieces included.
pub open spec fn split_on(s: Seq<char>, sep: char) -> Seq<Seq<char>>
    decreases s.len(),
{
    let n = segment_len(s, sep);
    if n < s.len() {
        seq![s.take(n as int)] + split_on(s.skip(n + 1 as int), sep)
    } else {
        seq![s]
    }
}

/// Whether `c` is whitespace in the sense of `is_ws`.
pub fn is_whitespace(c: char) -> (r: bool)
    ensures
        r == is_ws(c),
{
    ('\u{9}' <= c && c <= '\u{d}') || c == ' ' || c == '\u{85}' || c == '\u{a0}'
        || c == '\u{1680}' || ('\u{2000}' <= c && c <= '\u{200a}') || c == '\u{2028}'
        || c == '\u{2029}' || c == '\u{202f}' || c == '\u{205f}' || c == '\u{3000}'
}

/// The segment length is the index of the first separator.
pub proof fn lemma_segment_len(s: Seq<char>, sep: char, n: int)
    requires
        0 <= n <= s.len(),
        forall|i: int| 0 <= i < n ==> s[i] != sep,
        n == s.len() || s[n] == sep,
    ensures
        segment_len(s, sep) == n,
    decreases n,
{
    if n > 0 {
        lemma_segment_len(s.drop_first(), sep, n - 1);
    }
}

/// Where a `sep` is found first at `n`, split_on takes the piece before it.
pub proof fn lemma_split_step(s: Seq<char>, sep: char, n: int)
    requires
        0 <= n <= s.len(),
        forall|i: int| 0 <= i < n ==> s[i] != sep,
        n == s.len() || s[n] == sep,
    ensures
        n < s.len() ==> split_on(s, sep) == seq![s.take(n)] + split_on(s.skip(n + 1), sep),
        n == s.len() ==> split_on(s, sep) == seq![s],
{
    lemma_segment_len(s, sep, n);
}

/// The first index at or after `from` that holds `sep`, or the length.
pub fn find_char(v: &Vec<char>, sep: char, from: usize) -> (r: usize)
    requires
        from <= v@.len(),
    ensures
        from <= r <= v@.len(),
        forall|i: int| from <= i < r ==> v@[i] != sep,
        r == v@.len() || v@[r as int] == sep,
{
    let mut i: usize = from;
    while i < v.len() && v[i] != sep
        invariant
            from <= i <= v@.len(),
            forall|j: int| from <= j < i ==> v@[j] != sep,
        decreases v@.len() - i,
    {
        i = i + 1;
    }
    i
}

/// Leading whitespace ends at the first non-whitespace character.
pub proof fn lemma_trim_start(s: Seq<char>, m: int)
    requires
        0 <= m <= s.len(),
        forall|i: int| 0 <= i < m ==> is_ws(#[trigger] s[i]),
        m == s.len() || !is_ws(s[m]),
    ensures
        trim_start(s) == s.skip(m),
    decreases m,
{
    if m > 0 {
        lemma_trim_start(s.drop_first(), m - 1);
        assert(s.drop_first().skip(m - 1) =~= s.skip(m));
    } else {
        assert(s.skip(0) =~= s);
    }
}

/// Trailing whitespace starts after the last non-whitespace character.
pub proof fn lemma_trim_end(s: Seq<char>, m: int)
    requires
        0 <= m <= s.len(),
        forall|i: int| m <= i < s.len() ==> is_ws(#[trigger] s[i]),
        m == 0 || !is_ws(s[m - 1]),
    ensures
        trim_end(s) == s.take(m),
    decreases s.len() - m,
{
    if m < s.len() {
        lemma_trim_end(s.drop_last(), m);
        assert(s.drop_last().take(m) =~= s.take(m));
    } else {
        assert(s.take(m) =~= s);
    }
}

/// Whitespace in front of `t` does not change what trimming its start gives.
pub proof fn lemma_trim_start_skips_ws(w: Seq<char>, t: Seq<char>)
    requires
        forall|i: int| 0 <= i < w.len() ==> is_ws(#[trigger] w[i]),
    ensures
        trim_start(w + t) == trim_start(t),
    decreases w.len(),
{
    if w.len() > 0 {
        assert((w + t).drop_first() =~= w.drop_first() + t);
        lemma_trim_start_skips_ws(w.drop_first(), t);
    } else {
        assert(w + t =~= t);
    }
}

/// The index `a` within `lo..hi` such that `v[a..hi]` is `v[lo..hi]` without
/// its leading whitespace.
pub fn trim_start_index(v: &Vec<char>, lo: usize, hi: usize) -> (a: usize)
    requires
        lo <= hi <= v@.len(),
    ensures
        lo <= a <= hi,
        v@.subrange(a as int, hi as int) == trim_start(v@.subrange(lo as int, hi as int)),
{
    let mut a: usize = lo;
    while a < hi && is_whitespace(v[a])
        invariant
            lo <= a <= hi <= v@.len(),
            forall|i: int| lo <= i < a ==> is_ws(#[trigger] v@[i]),
        decreases hi - a,
    {
        a = a + 1;
    }
    proof {
        let s = v@.subrange(lo as int, hi as int);
        lemma_trim_start(s, a - lo);
        assert(s.skip(a - lo) =~= v@.subrange(a as int, hi as int));
    }
    a
}

/// The bounds `(a, b)` within `lo..hi` such that `v[a..b]` is `v[lo..hi]`
/// trimmed.
pub fn trim_bounds(v: &Vec<char>, lo: usize, hi: usize) -> (r: (usize, usize))
    requires
        lo <= hi <= v@.len(),
    ensures
        lo <= r.0 <= r.1 <= hi,
        v@.subrange(r.0 as int, r.1 as int) == trim(v@.subrange(lo as int, hi as int)),
{
    let a = trim_start_index(v, lo, hi);
    let mut b: usize = hi;
    while b > a && is_whitespace(v[b - 1])
        invariant
            lo <= a <= b <= hi <= v@.len(),
            forall|i: int| b <= i < hi ==> is_ws(#[trigger] v@[i]),
        decreases b - a,
    {
        b = b - 1;
    }
    proof {
        let t = v@.subrange(a as int, hi as int);
        lemma_trim_end(t, b - a);
        assert(t.take(b - a) =~= v@.subrange(a as int, b as int));
    }
    (a, b)
}

/// The characters of `s`, one by one.
pub fn chars_of(s: &str) -> (r: Vec<char>)
    ensures
        r@ == s@,
{
    broadcast use vstd::string::group_string_axioms;
    let mut r: Vec<char> = Vec::new();
    for c in it: s.chars()
        invariant
            it.seq() == s@,
            r@ == it.seq().take(it.index() as int),
    {
        r.push(c);
        assert(r@ =~= it.seq().take(it.index() + 1));
    }
    assert(r@ =~= s@);
    r
}

} // verus!
