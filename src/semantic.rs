//! Decomposition of a dotted version string such as `10.15.21` into its
//! major, minor and patch numbers.
use vstd::prelude::*;
use crate::text::{split_on, chars_of, find_char, lemma_split_step};

verus! {

pub open spec fn is_digit(c: char) -> bool {
    '0' <= c && c <= '9'
}

pub open spec fn all_digits(s: Seq<char>) -> bool {
    forall|i: int| 0 <= i < s.len() ==> is_digit(#[trigger] s[i])
}

pub open spec fn digit_value(c: char) -> nat {
    (c as u32 - '0' as u32) as nat
}

/// The number that the decimal digits `s` write.
pub open spec fn digits_value(s: Seq<char>) -> nat
    decreases s.len(),
{
    if s.len() == 0 {
        0
    } else {
        digits_value(s.drop_last()) * 10 + digit_value(s.last())
    }
}

/// `s` without one leading `+` sign.
pub open spec fn unsigned_part(s: Seq<char>) -> Seq<char> {
    if s.len() > 0 && s[0] == '+' {
        s.drop_first()
    } else {
        s
    }
}

/// The `u64` that `s` writes in decimal, as Rust's integer parsing reads it:
/// an optional `+`, then one or more digits, and a value that fits.
pub open spec fn parsed_u64(s: Seq<char>) -> Option<u64> {
    let d = unsigned_part(s);
    if d.len() > 0 && all_digits(d) && digits_value(d) <= u64::MAX {
        Some(digits_value(d) as u64)
    } else {
        None
    }
}

/// The major, minor and patch numbers that `s` writes: two or three
/// dot-separated numbers, the patch being 0 where only two are given.
pub open spec fn semantic_of(s: Seq<char>) -> Option<(u64, u64, u64)> {
    let parts = split_on(s, '.');
    if parts.len() == 2 || parts.len() == 3 {
        let patch = if parts.len() == 3 {
            parsed_u64(parts[2])
        } else {
            Some(0u64)
        };
        if parsed_u64(parts[0]) is Some && parsed_u64(parts[1]) is Some && patch is Some {
            Some((parsed_u64(parts[0])->0, parsed_u64(parts[1])->0, patch->0))
        } else {
            None
        }
    } else {
        None
    }
}

/// One or more decimal digits whose value fits in `u64`.
pub open spec fn is_number(s: Seq<char>) -> bool {
    s.len() > 0 && all_digits(s) && digits_value(s) <= u64::MAX
}

/// A piece that reads as a number but perhaps for its size: one or more
/// digits, after at most one leading `+`.
pub open spec fn is_numeric_piece(s: Seq<char>) -> bool {
    unsigned_part(s).len() > 0 && all_digits(unsigned_part(s))
}

/// Digits that fit in `u64` read back as their value.
pub proof fn lemma_parsed_number(s: Seq<char>)
    requires
        is_number(s),
    ensures
        parsed_u64(s) == Some(digits_value(s) as u64),
{
    assert(is_digit(s[0]));
}

/// The pieces of `a` followed by `sep` and `rest`, where `a` holds no `sep`.
pub proof fn lemma_split_joined(a: Seq<char>, sep: char, rest: Seq<char>)
    requires
        forall|i: int| 0 <= i < a.len() ==> a[i] != sep,
    ensures
        split_on(a + seq![sep] + rest, sep) == seq![a] + split_on(rest, sep),
{
    let s = a + seq![sep] + rest;
    lemma_split_step(s, sep, a.len() as int);
    assert(s.take(a.len() as int) =~= a);
    assert(s.skip(a.len() + 1 as int) =~= rest);
}

/// A piece without `sep` is not split.
pub proof fn lemma_split_single(a: Seq<char>, sep: char)
    requires
        forall|i: int| 0 <= i < a.len() ==> a[i] != sep,
    ensures
        split_on(a, sep) == seq![a],
{
    lemma_split_step(a, sep, a.len() as int);
}

/// Numbers in decimal joined by dots, two or three of them, read back as
/// `(major, minor, patch)`, the patch being 0 where only two are given.
pub proof fn lemma_semantic_of_numbers(major: Seq<char>, minor: Seq<char>, patch: Option<Seq<char>>)
    requires
        is_number(major),
        is_number(minor),
        patch is Some ==> is_number(patch->0),
    ensures
        ({
            let joined = match patch {
                Some(p) => major + seq!['.'] + minor + seq!['.'] + p,
                None => major + seq!['.'] + minor,
            };
            let expected_patch = match patch {
                Some(p) => digits_value(p) as u64,
                None => 0u64,
            };
            semantic_of(joined) == Some(
                (digits_value(major) as u64, digits_value(minor) as u64, expected_patch),
            )
        }),
{
    assert forall|i: int| 0 <= i < major.len() implies major[i] != '.' by {
        assert(is_digit(major[i]));
    }
    assert forall|i: int| 0 <= i < minor.len() implies minor[i] != '.' by {
        assert(is_digit(minor[i]));
    }
    lemma_parsed_number(major);
    lemma_parsed_number(minor);
    match patch {
        Some(p) => {
            assert forall|i: int| 0 <= i < p.len() implies p[i] != '.' by {
                assert(is_digit(p[i]));
            }
            lemma_parsed_number(p);
            lemma_split_single(p, '.');
            lemma_split_joined(minor, '.', p);
            assert(major + seq!['.'] + minor + seq!['.'] + p =~= major + seq!['.'] + (minor
                + seq!['.'] + p));
            lemma_split_joined(major, '.', minor + seq!['.'] + p);
            let parts = split_on(major + seq!['.'] + minor + seq!['.'] + p, '.');
            assert(parts =~= seq![major, minor, p]);
        },
        None => {
            lemma_split_single(minor, '.');
            lemma_split_joined(major, '.', minor);
            let parts = split_on(major + seq!['.'] + minor, '.');
            assert(parts =~= seq![major, minor]);
        },
    }
}

/// A string that does not split at its dots into two or three pieces, or
/// that has a piece that is empty or holds anything but digits (after at
/// most one leading `+`), is not a semantic version.
pub proof fn lemma_not_semantic(s: Seq<char>)
    requires
        ({
            let parts = split_on(s, '.');
            (parts.len() != 2 && parts.len() != 3) || exists|i: int|
                0 <= i < parts.len() && !is_numeric_piece(#[trigger] parts[i])
        }),
    ensures
        semantic_of(s) is None,
{
    let parts = split_on(s, '.');
    if parts.len() == 2 || parts.len() == 3 {
        let i = choose|i: int| 0 <= i < parts.len() && !is_numeric_piece(#[trigger] parts[i]);
        assert(parsed_u64(parts[i]) is None);
    }
}

/// Appending digits never makes the value smaller.
pub proof fn lemma_digits_value_mono(s: Seq<char>, k: int)
    requires
        0 <= k <= s.len(),
        all_digits(s),
    ensures
        digits_value(s.take(k)) <= digits_value(s),
    decreases s.len() - k,
{
    if k < s.len() {
        assert(s.drop_last().take(k) =~= s.take(k));
        assert(all_digits(s.drop_last()));
        lemma_digits_value_mono(s.drop_last(), k);
    } else {
        assert(s.take(k) =~= s);
    }
}

/// The number that `v[lo..hi]` writes, as `parsed_u64` reads it.
pub fn parse_u64_range(v: &Vec<char>, lo: usize, hi: usize) -> (r: Option<u64>)
    requires
        lo <= hi <= v@.len(),
    ensures
        r == parsed_u64(v@.subrange(lo as int, hi as int)),
{
    let ghost s = v@.subrange(lo as int, hi as int);
    let mut start: usize = lo;
    if start < hi && v[start] == '+' {
        start = start + 1;
    }
    let ghost d = v@.subrange(start as int, hi as int);
    assert(unsigned_part(s) =~= d);
    if start == hi {
        return None;
    }
    let mut i: usize = start;
    let mut acc: u64 = 0;
    while i < hi
        invariant
            lo <= start <= i <= hi <= v@.len(),
            s == v@.subrange(lo as int, hi as int),
            d == v@.subrange(start as int, hi as int),
            unsigned_part(s) == d,
            all_digits(d.take(i - start)),
            acc as nat == digits_value(d.take(i - start)),
        decreases hi - i,
    {
        let c = v[i];
        let k = i - start;
        assert(d[k as int] == c);
        if !('0' <= c && c <= '9') {
            assert(!is_digit(d[k as int]));
            return None;
        }
        assert(d.take(k + 1).drop_last() =~= d.take(k as int));
        assert(d.take(k + 1).last() == c);
        assert(all_digits(d.take(k + 1)));
        let dv: u64 = (c as u32 - '0' as u32) as u64;
        assert(digits_value(d.take(k + 1)) == acc * 10 + dv);
        match acc.checked_mul(10) {
            None => {
                proof {
                    if all_digits(d) {
                        lemma_digits_value_mono(d, k + 1 as int);
                    }
                }
                return None;
            },
            Some(m) => match m.checked_add(dv) {
                None => {
                    proof {
                        if all_digits(d) {
                            lemma_digits_value_mono(d, k + 1 as int);
                        }
                    }
                    return None;
                },
                Some(n) => {
                    acc = n;
                },
            },
        }
        i = i + 1;
    }
    assert(d.take(hi - start) =~= d);
    Some(acc)
}

/// Splits `version` at its dots and reads two or three numbers from it:
/// `(major, minor, patch)`, with patch 0 where only two are given. `None`
/// where there are fewer than two or more than three pieces, or where a
/// piece is not a number that fits in `u64`.
pub fn parse_semantic_version(version: &str) -> (r: Option<(u64, u64, u64)>)
    ensures
        r == semantic_of(version@),
{
    let v = chars_of(version);
    let ghost s = v@;
    let len = v.len();
    let d1 = find_char(&v, '.', 0);
    proof {
        lemma_split_step(s, '.', d1 as int);
    }
    if d1 == len {
        return None;
    }
    let d2 = find_char(&v, '.', d1 + 1);
    let ghost s1 = s.skip(d1 + 1);
    proof {
        assert forall|i: int| 0 <= i < d2 - d1 - 1 implies s1[i] != '.' by {
            assert(s1[i] == s[d1 + 1 + i]);
        }
        lemma_split_step(s1, '.', d2 - d1 - 1);
        assert(s1.take(d2 - d1 - 1) =~= s.subrange(d1 + 1, d2 as int));
        assert(s.take(d1 as int) =~= s.subrange(0, d1 as int));
    }
    if d2 == len {
        assert(s1 =~= s.subrange(d1 + 1, len as int));
        let major = parse_u64_range(&v, 0, d1);
        let minor = parse_u64_range(&v, d1 + 1, len);
        return match (major, minor) {
            (Some(a), Some(b)) => Some((a, b, 0)),
            _ => None,
        };
    }
    let d3 = find_char(&v, '.', d2 + 1);
    let ghost s2 = s1.skip(d2 - d1);
    proof {
        assert(s2 =~= s.skip(d2 + 1));
        assert forall|i: int| 0 <= i < d3 - d2 - 1 implies s2[i] != '.' by {
            assert(s2[i] == s[d2 + 1 + i]);
        }
        lemma_split_step(s2, '.', d3 - d2 - 1);
        assert(s2.take(d3 - d2 - 1) =~= s.subrange(d2 + 1, d3 as int));
    }
    if d3 < len {
        return None;
    }
    assert(s2 =~= s.subrange(d2 + 1, len as int));
    let major = parse_u64_range(&v, 0, d1);
    let minor = parse_u64_range(&v, d1 + 1, d2);
    let patch = parse_u64_range(&v, d2 + 1, len);
    match (major, minor, patch) {
        (Some(a), Some(b), Some(c)) => Some((a, b, c)),
        _ => None,
    }
}

} // verus!
