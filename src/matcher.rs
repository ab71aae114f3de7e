//! Extraction of a labelled value from line-oriented command output.
use vstd::prelude::*;
use crate::text::{
    is_ws, trim, trim_start, split_on, chars_of, trim_start_index, trim_bounds,
    lemma_trim_start_skips_ws, find_char, lemma_split_step,
};

verus! {

/// Whether `line`, once its leading whitespace is removed, begins with
/// `prefix`.
pub open spec fn line_matches(line: Seq<char>, prefix: Seq<char>) -> bool {
    prefix.is_prefix_of(trim_start(line))
}

/// What follows `prefix` on a matching `line`, trimmed.
pub open spec fn value_after(line: Seq<char>, prefix: Seq<char>) -> Seq<char> {
    trim(trim_start(line).skip(prefix.len() as int))
}

/// The value on the first of `lines` that matches `prefix`.
pub open spec fn first_match(lines: Seq<Seq<char>>, prefix: Seq<char>) -> Option<Seq<char>>
    decreases lines.len(),
{
    if lines.len() == 0 {
        None
    } else if line_matches(lines[0], prefix) {
        Some(value_after(lines[0], prefix))
    } else {
        first_match(lines.drop_first(), prefix)
    }
}

/// The value on the first line of `text` (lines end at `'\n'`) that begins
/// with `prefix` after its leading whitespace.
pub open spec fn find_prefixed(text: Seq<char>, prefix: Seq<char>) -> Option<Seq<char>> {
    first_match(split_on(text, '\n'), prefix)
}

/// The first match among `lines` is at `k` when `lines[k]` matches and no
/// line before it does.
pub proof fn lemma_first_match_at(lines: Seq<Seq<char>>, prefix: Seq<char>, k: int)
    requires
        0 <= k < lines.len(),
        line_matches(lines[k], prefix),
        forall|j: int| 0 <= j < k ==> !line_matches(#[trigger] lines[j], prefix),
    ensures
        first_match(lines, prefix) == Some(value_after(lines[k], prefix)),
    decreases k,
{
    if k > 0 {
        let rest = lines.drop_first();
        assert forall|j: int| 0 <= j < k - 1 implies !line_matches(#[trigger] rest[j], prefix) by {
            assert(rest[j] == lines[j + 1]);
        }
        lemma_first_match_at(rest, prefix, k - 1);
    }
}

/// Where no line matches, there is no first match.
pub proof fn lemma_first_match_none(lines: Seq<Seq<char>>, prefix: Seq<char>)
    requires
        forall|j: int| 0 <= j < lines.len() ==> !line_matches(#[trigger] lines[j], prefix),
    ensures
        first_match(lines, prefix) is None,
    decreases lines.len(),
{
    if lines.len() > 0 {
        let rest = lines.drop_first();
        assert forall|j: int| 0 <= j < rest.len() implies !line_matches(#[trigger] rest[j], prefix) by {
            assert(rest[j] == lines[j + 1]);
        }
        lemma_first_match_none(rest, prefix);
    }
}

/// Where the first line of `text` that begins with `prefix` reads
/// `indent + prefix + gap + value`, with whitespace for `indent` and `gap`,
/// the matcher gives `value` trimmed. The prefix must not itself begin with
/// whitespace.
pub proof fn lemma_find_prefixed_value(
    text: Seq<char>,
    prefix: Seq<char>,
    k: int,
    indent: Seq<char>,
    gap: Seq<char>,
    value: Seq<char>,
)
    requires
        0 <= k < split_on(text, '\n').len(),
        split_on(text, '\n')[k] == indent + prefix + gap + value,
        forall|i: int| 0 <= i < indent.len() ==> is_ws(#[trigger] indent[i]),
        forall|i: int| 0 <= i < gap.len() ==> is_ws(#[trigger] gap[i]),
        prefix.len() > 0,
        !is_ws(prefix[0]),
        forall|j: int|
            0 <= j < k ==> !line_matches(#[trigger] split_on(text, '\n')[j], prefix),
    ensures
        find_prefixed(text, prefix) == Some(trim(value)),
{
    let body = prefix + gap + value;
    assert(indent + prefix + gap + value =~= indent + body);
    lemma_trim_start_skips_ws(indent, body);
    assert(trim_start(body) == body);
    assert(prefix.is_prefix_of(body)) by {
        assert(body.take(prefix.len() as int) =~= prefix);
    }
    assert(body.skip(prefix.len() as int) =~= gap + value);
    lemma_trim_start_skips_ws(gap, value);
    lemma_first_match_at(split_on(text, '\n'), prefix, k);
}

/// Where no line of `text` begins with `prefix` (leading whitespace aside),
/// the matcher gives nothing.
pub proof fn lemma_find_prefixed_absent(text: Seq<char>, prefix: Seq<char>)
    requires
        forall|j: int|
            0 <= j < split_on(text, '\n').len() ==> !line_matches(
                #[trigger] split_on(text, '\n')[j],
                prefix,
            ),
    ensures
        find_prefixed(text, prefix) is None,
{
    lemma_first_match_none(split_on(text, '\n'), prefix);
}

/// The shapes of labelled lines that a value can be read from.
pub enum Matcher {
    /// A line that begins with `prefix` (leading whitespace aside); the value
    /// is the rest of the line, trimmed.
    PrefixedVersion { prefix: &'static str },
}

impl Matcher {
    pub open spec fn spec_find(&self, text: Seq<char>) -> Option<Seq<char>> {
        match self {
            Matcher::PrefixedVersion { prefix } => find_prefixed(text, prefix@),
        }
    }

    /// The value that this matcher reads from `text`, or `None` where no line
    /// has it.
    pub fn find(&self, text: &str) -> (r: Option<String>)
        ensures
            r.deep_view() == self.spec_find(text@),
    {
        match self {
            Matcher::PrefixedVersion { prefix } => find_prefixed_value(text, prefix),
        }
    }
}

/// Whether `p` stands in `v` from index `a`, before `e`.
fn has_prefix_at(v: &Vec<char>, a: usize, e: usize, p: &Vec<char>) -> (r: bool)
    requires
        a <= e <= v@.len(),
    ensures
        r == p@.is_prefix_of(v@.subrange(a as int, e as int)),
{
    if p.len() > e - a {
        return false;
    }
    let mut i: usize = 0;
    while i < p.len()
        invariant
            a <= e <= v@.len(),
            p@.len() <= e - a,
            0 <= i <= p@.len(),
            forall|j: int| 0 <= j < i ==> p@[j] == v@[a + j],
        decreases p@.len() - i,
    {
        if p[i] != v[a + i] {
            assert(v@.subrange(a as int, e as int)[i as int] == v@[a + i]);
            return false;
        }
        i = i + 1;
    }
    assert(p@ =~= v@.subrange(a as int, e as int).take(p@.len() as int));
    true
}

/// The value on the first line of `text` that begins with `prefix`.
fn find_prefixed_value(text: &str, prefix: &str) -> (r: Option<String>)
    ensures
        r.deep_view() == find_prefixed(text@, prefix@),
{
    let v = chars_of(text);
    let p = chars_of(prefix);
    let ghost s = v@;
    let len = v.len();
    let mut pos: usize = 0;
    assert(s.skip(0) =~= s);
    loop
        invariant
            s == v@,
            v@ == text@,
            len == v@.len(),
            p@ == prefix@,
            pos <= len,
            find_prefixed(text@, prefix@) == first_match(split_on(s.skip(pos as int), '\n'), p@),
        decreases len - pos,
    {
        let e = find_char(&v, '\n', pos);
        let ghost rest = s.skip(pos as int);
        let ghost line = s.subrange(pos as int, e as int);
        proof {
            assert forall|i: int| 0 <= i < e - pos implies rest[i] != '\n' by {
                assert(rest[i] == s[pos + i]);
            }
            lemma_split_step(rest, '\n', e - pos);
            assert(rest.take(e - pos) =~= line);
            if e < len {
                assert(rest.skip(e - pos + 1) =~= s.skip(e + 1));
            } else {
                assert(rest =~= line);
            }
            let lines = split_on(rest, '\n');
            assert(lines[0] == line);
            if e < len {
                assert(lines.drop_first() =~= split_on(s.skip(e + 1), '\n'));
            } else {
                assert(lines.drop_first() =~= Seq::<Seq<char>>::empty());
            }
        }
        let a = trim_start_index(&v, pos, e);
        if has_prefix_at(&v, a, e, &p) {
            let (x, y) = trim_bounds(&v, a + p.len(), e);
            proof {
                assert(v@.subrange(a as int, e as int).skip(p@.len() as int)
                    =~= v@.subrange(a + p@.len(), e as int));
            }
            let value = text.substring_char(x, y).to_owned();
            return Some(value);
        }
        if e == len {
            assert(first_match(Seq::<Seq<char>>::empty(), p@) is None);
            return None;
        }
        pos = e + 1;
    }
}

} // verus!
