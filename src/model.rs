//! The values that a probe produces: operating system identity, version,
//! bitness, and the record that holds all three.
use vstd::prelude::*;
use std::cmp::Ordering;
use crate::text::chars_of;

verus! {

/// The operating systems that can be told apart.
#[derive(Debug, Clone, Copy, PartialEq, Eq, Structural, PartialOrd, Ord, Hash)]
pub enum Type {
    Unknown,
    Android,
    FreeBSD,
    Linux,
    Macos,
    NetBSD,
    OpenBSD,
    Windows,
}

/// The CPU address width that the operating system reports.
#[derive(Debug, Clone, Copy, PartialEq, Eq, Structural, PartialOrd, Ord, Hash)]
pub enum Bitness {
    Unknown,
    X32,
    X64,
}

/// An operating system version.
///
/// Versions are ordered by variant first, `Unknown` < `Semantic` < `Custom`;
/// within `Semantic` by major, minor, patch and then edition (absent first);
/// within `Custom` by the text, compared lexicographically, then edition.
#[derive(Debug, Clone, Eq, Ord)]
pub enum Version {
    /// No version could be determined.
    Unknown,
    /// Major, minor and patch numbers, with an optional edition.
    Semantic(u64, u64, u64, Option<String>),
    /// A version that is not made of numbers, kept as written, with an
    /// optional edition.
    Custom(String, Option<String>),
}

/// The mathematical value of a `Version`.
pub enum VersionView {
    Unknown,
    Semantic(u64, u64, u64, Option<Seq<char>>),
    Custom(Seq<char>, Option<Seq<char>>),
}

impl View for Version {
    type V = VersionView;

    open spec fn view(&self) -> VersionView {
        match self {
            Version::Unknown => VersionView::Unknown,
            Version::Semantic(major, minor, patch, edition) => VersionView::Semantic(
                *major,
                *minor,
                *patch,
                edition.deep_view(),
            ),
            Version::Custom(s, edition) => VersionView::Custom(s@, edition.deep_view()),
        }
    }
}

impl Version {
    /// The version that says nothing is known.
    pub fn unknown() -> (r: Version)
        ensures
            r@ == VersionView::Unknown,
    {
        Version::Unknown
    }

    /// A numeric version.
    pub fn semantic(major: u64, minor: u64, patch: u64, edition: Option<String>) -> (r: Version)
        ensures
            r@ == VersionView::Semantic(major, minor, patch, edition.deep_view()),
    {
        Version::Semantic(major, minor, patch, edition)
    }

    /// A version kept as written.
    pub fn custom(version: String, edition: Option<String>) -> (r: Version)
        ensures
            r@ == VersionView::Custom(version@, edition.deep_view()),
    {
        Version::Custom(version, edition)
    }
}

/// `first`, or `second` where `first` is a tie.
pub open spec fn lex(first: Ordering, second: Ordering) -> Ordering {
    if first is Equal {
        second
    } else {
        first
    }
}

/// The opposite order.
pub open spec fn reversed(o: Ordering) -> Ordering {
    match o {
        Ordering::Less => Ordering::Greater,
        Ordering::Equal => Ordering::Equal,
        Ordering::Greater => Ordering::Less,
    }
}

pub open spec fn cmp_u64(a: u64, b: u64) -> Ordering {
    if a < b {
        Ordering::Less
    } else if a == b {
        Ordering::Equal
    } else {
        Ordering::Greater
    }
}

/// Lexicographic order of texts, by code point.
pub open spec fn cmp_chars(a: Seq<char>, b: Seq<char>) -> Ordering
    decreases a.len(),
{
    if a.len() == 0 {
        if b.len() == 0 {
            Ordering::Equal
        } else {
            Ordering::Less
        }
    } else if b.len() == 0 {
        Ordering::Greater
    } else if a[0] < b[0] {
        Ordering::Less
    } else if a[0] > b[0] {
        Ordering::Greater
    } else {
        cmp_chars(a.drop_first(), b.drop_first())
    }
}

/// Editions: an absent one first, then by their text.
pub open spec fn cmp_edition(a: Option<Seq<char>>, b: Option<Seq<char>>) -> Ordering {
    match (a, b) {
        (None, None) => Ordering::Equal,
        (None, Some(_)) => Ordering::Less,
        (Some(_), None) => Ordering::Greater,
        (Some(x), Some(y)) => cmp_chars(x, y),
    }
}

pub open spec fn variant_rank(v: VersionView) -> u64 {
    match v {
        VersionView::Unknown => 0,
        VersionView::Semantic(..) => 1,
        VersionView::Custom(..) => 2,
    }
}

/// The order of versions: by variant (`Unknown`, `Semantic`, `Custom`), then
/// by the fields in their order.
pub open spec fn version_cmp(a: VersionView, b: VersionView) -> Ordering {
    match (a, b) {
        (
            VersionView::Semantic(a1, a2, a3, ae),
            VersionView::Semantic(b1, b2, b3, be),
        ) => lex(
            cmp_u64(a1, b1),
            lex(cmp_u64(a2, b2), lex(cmp_u64(a3, b3), cmp_edition(ae, be))),
        ),
        (VersionView::Custom(s, ae), VersionView::Custom(t, be)) => lex(
            cmp_chars(s, t),
            cmp_edition(ae, be),
        ),
        _ => cmp_u64(variant_rank(a), variant_rank(b)),
    }
}

pub fn compare_u64(a: u64, b: u64) -> (r: Ordering)
    ensures
        r == cmp_u64(a, b),
{
    if a < b {
        Ordering::Less
    } else if a == b {
        Ordering::Equal
    } else {
        Ordering::Greater
    }
}

/// Compares two texts in the order of `cmp_chars`.
pub fn compare_text(a: &str, b: &str) -> (r: Ordering)
    ensures
        r == cmp_chars(a@, b@),
{
    let x = chars_of(a);
    let y = chars_of(b);
    let mut i: usize = 0;
    assert(x@.skip(0) =~= x@);
    assert(y@.skip(0) =~= y@);
    while i < x.len() && i < y.len() && x[i] == y[i]
        invariant
            x@ == a@,
            y@ == b@,
            i <= x@.len(),
            i <= y@.len(),
            cmp_chars(a@, b@) == cmp_chars(x@.skip(i as int), y@.skip(i as int)),
        decreases x@.len() - i,
    {
        assert(x@.skip(i as int).drop_first() =~= x@.skip(i + 1));
        assert(y@.skip(i as int).drop_first() =~= y@.skip(i + 1));
        i = i + 1;
    }
    if i == x.len() {
        if i == y.len() {
            Ordering::Equal
        } else {
            Ordering::Less
        }
    } else if i == y.len() {
        Ordering::Greater
    } else {
        if x[i] < y[i] {
            Ordering::Less
        } else {
            Ordering::Greater
        }
    }
}

fn compare_edition(a: &Option<String>, b: &Option<String>) -> (r: Ordering)
    ensures
        r == cmp_edition(a.deep_view(), b.deep_view()),
{
    match (a, b) {
        (None, None) => Ordering::Equal,
        (None, Some(_)) => Ordering::Less,
        (Some(_), None) => Ordering::Greater,
        (Some(x), Some(y)) => compare_text(x.as_str(), y.as_str()),
    }
}

fn lex_exec(first: Ordering, second: Ordering) -> (r: Ordering)
    ensures
        r == lex(first, second),
{
    match first {
        Ordering::Equal => second,
        _ => first,
    }
}

impl Version {
    /// Where this version stands relative to `other`, in the order of
    /// `version_cmp`.
    pub fn compare(&self, other: &Version) -> (r: Ordering)
        ensures
            r == version_cmp(self@, other@),
    {
        match (self, other) {
            (Version::Semantic(a1, a2, a3, ae), Version::Semantic(b1, b2, b3, be)) => {
                let e = compare_edition(ae, be);
                let p = lex_exec(compare_u64(*a3, *b3), e);
                let m = lex_exec(compare_u64(*a2, *b2), p);
                lex_exec(compare_u64(*a1, *b1), m)
            },
            (Version::Custom(s, ae), Version::Custom(t, be)) => {
                let e = compare_edition(ae, be);
                lex_exec(compare_text(s.as_str(), t.as_str()), e)
            },
            _ => compare_u64(self.rank(), other.rank()),
        }
    }

    fn rank(&self) -> (r: u64)
        ensures
            r == variant_rank(self@),
    {
        match self {
            Version::Unknown => 0,
            Version::Semantic(..) => 1,
            Version::Custom(..) => 2,
        }
    }
}

impl PartialEq for Version {
    fn eq(&self, other: &Version) -> (r: bool) {
        proof {
            lemma_version_cmp_equal(self@, other@);
        }
        match self.compare(other) {
            Ordering::Equal => true,
            _ => false,
        }
    }
}

impl vstd::std_specs::cmp::PartialEqSpecImpl for Version {
    open spec fn obeys_eq_spec() -> bool {
        true
    }

    open spec fn eq_spec(&self, other: &Version) -> bool {
        self@ == other@
    }
}

impl PartialOrd for Version {
    fn partial_cmp(&self, other: &Version) -> (r: Option<Ordering>) {
        Some(self.compare(other))
    }
}

impl vstd::std_specs::cmp::PartialOrdSpecImpl for Version {
    open spec fn obeys_partial_cmp_spec() -> bool {
        true
    }

    open spec fn partial_cmp_spec(&self, other: &Version) -> Option<Ordering> {
        Some(version_cmp(self@, other@))
    }
}

/// Texts compare equal exactly when they are the same, and swapping them
/// reverses the order.
pub proof fn lemma_cmp_chars(a: Seq<char>, b: Seq<char>)
    ensures
        (cmp_chars(a, b) is Equal) <==> a == b,
        cmp_chars(b, a) == reversed(cmp_chars(a, b)),
    decreases a.len(),
{
    if a.len() > 0 && b.len() > 0 {
        if a[0] == b[0] {
            lemma_cmp_chars(a.drop_first(), b.drop_first());
            if a.drop_first() == b.drop_first() {
                assert(a =~= seq![a[0]] + a.drop_first());
                assert(b =~= seq![b[0]] + b.drop_first());
            }
        }
    } else if a.len() == 0 && b.len() == 0 {
        assert(a =~= b);
    }
}

/// Versions compare equal exactly when they are the same value.
pub proof fn lemma_version_cmp_equal(a: VersionView, b: VersionView)
    ensures
        (version_cmp(a, b) is Equal) <==> a == b,
{
    match (a, b) {
        (VersionView::Semantic(_, _, _, ae), VersionView::Semantic(_, _, _, be)) => {
            lemma_cmp_edition(ae, be);
        },
        (VersionView::Custom(s, ae), VersionView::Custom(t, be)) => {
            lemma_cmp_chars(s, t);
            lemma_cmp_edition(ae, be);
        },
        _ => {},
    }
}

proof fn lemma_cmp_edition(a: Option<Seq<char>>, b: Option<Seq<char>>)
    ensures
        (cmp_edition(a, b) is Equal) <==> a == b,
        cmp_edition(b, a) == reversed(cmp_edition(a, b)),
{
    if a is Some && b is Some {
        lemma_cmp_chars(a->0, b->0);
    }
}

/// Swapping two versions reverses their order, so that the order is total
/// and consistent in both directions.
pub proof fn lemma_version_cmp_antisymmetric(a: VersionView, b: VersionView)
    ensures
        version_cmp(b, a) == reversed(version_cmp(a, b)),
{
    match (a, b) {
        (VersionView::Semantic(_, _, _, ae), VersionView::Semantic(_, _, _, be)) => {
            lemma_cmp_edition(ae, be);
        },
        (VersionView::Custom(s, ae), VersionView::Custom(t, be)) => {
            lemma_cmp_chars(s, t);
            lemma_cmp_edition(ae, be);
        },
        _ => {},
    }
}

proof fn lemma_cmp_chars_transitive(a: Seq<char>, b: Seq<char>, c: Seq<char>)
    requires
        cmp_chars(a, b) is Less,
        cmp_chars(b, c) is Less,
    ensures
        cmp_chars(a, c) is Less,
    decreases a.len(),
{
    if a.len() > 0 && a[0] == b[0] && b[0] == c[0] {
        lemma_cmp_chars_transitive(a.drop_first(), b.drop_first(), c.drop_first());
    }
}

proof fn lemma_cmp_edition_transitive(a: Option<Seq<char>>, b: Option<Seq<char>>, c: Option<Seq<char>>)
    requires
        cmp_edition(a, b) is Less,
        cmp_edition(b, c) is Less,
    ensures
        cmp_edition(a, c) is Less,
{
    if a is Some && b is Some && c is Some {
        lemma_cmp_chars_transitive(a->0, b->0, c->0);
    }
}

/// The order of versions is transitive.
pub proof fn lemma_version_cmp_transitive(a: VersionView, b: VersionView, c: VersionView)
    requires
        version_cmp(a, b) is Less,
        version_cmp(b, c) is Less,
    ensures
        version_cmp(a, c) is Less,
{
    lemma_version_cmp_equal(a, b);
    lemma_version_cmp_equal(b, c);
    match (a, b, c) {
        (
            VersionView::Semantic(_, _, _, ae),
            VersionView::Semantic(_, _, _, be),
            VersionView::Semantic(_, _, _, ce),
        ) => {
            lemma_cmp_edition(ae, be);
            lemma_cmp_edition(be, ce);
            if cmp_edition(ae, be) is Less && cmp_edition(be, ce) is Less {
                lemma_cmp_edition_transitive(ae, be, ce);
            }
        },
        (
            VersionView::Custom(s, ae),
            VersionView::Custom(t, be),
            VersionView::Custom(u, ce),
        ) => {
            lemma_cmp_chars(s, t);
            lemma_cmp_chars(t, u);
            lemma_cmp_edition(ae, be);
            lemma_cmp_edition(be, ce);
            if cmp_chars(s, t) is Less && cmp_chars(t, u) is Less {
                lemma_cmp_chars_transitive(s, t, u);
            }
            if cmp_edition(ae, be) is Less && cmp_edition(be, ce) is Less {
                lemma_cmp_edition_transitive(ae, be, ce);
            }
        },
        _ => {},
    }
}

/// What a probe found out about the host.
#[derive(Debug, Clone, PartialEq, Eq)]
pub struct Info {
    pub os_type: Type,
    pub version: Version,
    pub bitness: Bitness,
}

/// The mathematical value of an `Info`.
pub struct InfoView {
    pub os_type: Type,
    pub version: VersionView,
    pub bitness: Bitness,
}

impl View for Info {
    type V = InfoView;

    open spec fn view(&self) -> InfoView {
        InfoView { os_type: self.os_type, version: self.version@, bitness: self.bitness }
    }
}

impl Info {
    pub fn os_type(&self) -> (r: Type)
        ensures
            r == self.os_type,
    {
        self.os_type
    }

    pub fn version(&self) -> (r: &Version)
        ensures
            r == &self.version,
    {
        &self.version
    }

    pub fn bitness(&self) -> (r: Bitness)
        ensures
            r == self.bitness,
    {
        self.bitness
    }
}

} // verus!
