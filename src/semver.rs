//! Semantic versions as plain values, their precedence order, and range
//! matching through node-semver.
use vstd::prelude::*;
use crate::range_text::{range_hazard, range_is_safe};

verus! {

/// One dot-separated part of a pre-release or build tag.
pub enum Ident {
    Numeric(u64),
    AlphaNumeric(String),
}

/// A parsed semantic version.
pub struct SemVer {
    pub major: u64,
    pub minor: u64,
    pub patch: u64,
    pub pre_release: Vec<Ident>,
    pub build: Vec<Ident>,
}

/// -1, 0 or 1 as `a` is below, equal to or above `b`.
pub open spec fn int_cmp(a: int, b: int) -> int {
    if a < b {
        -1
    } else if a > b {
        1
    } else {
        0
    }
}

/// Lexicographic order of character sequences by code point (the order of
/// their UTF-8 bytes).
pub open spec fn chars_cmp(a: Seq<char>, b: Seq<char>) -> int
    decreases a.len(),
{
    if a.len() == 0 {
        if b.len() == 0 {
            0
        } else {
            -1
        }
    } else if b.len() == 0 {
        1
    } else if int_cmp(a[0] as int, b[0] as int) != 0 {
        int_cmp(a[0] as int, b[0] as int)
    } else {
        chars_cmp(a.drop_first(), b.drop_first())
    }
}

/// Order of identifiers: numeric ones first, by value; then alphanumeric
/// ones, by text.
pub open spec fn ident_cmp(a: Ident, b: Ident) -> int {
    match (a, b) {
        (Ident::Numeric(x), Ident::Numeric(y)) => int_cmp(x as int, y as int),
        (Ident::Numeric(_), Ident::AlphaNumeric(_)) => -1,
        (Ident::AlphaNumeric(_), Ident::Numeric(_)) => 1,
        (Ident::AlphaNumeric(s), Ident::AlphaNumeric(t)) => chars_cmp(s@, t@),
    }
}

/// Lexicographic order of identifier lists; a proper prefix comes first.
pub open spec fn idents_cmp(a: Seq<Ident>, b: Seq<Ident>) -> int
    decreases a.len(),
{
    if a.len() == 0 {
        if b.len() == 0 {
            0
        } else {
            -1
        }
    } else if b.len() == 0 {
        1
    } else if ident_cmp(a[0], b[0]) != 0 {
        ident_cmp(a[0], b[0])
    } else {
        idents_cmp(a.drop_first(), b.drop_first())
    }
}

/// Semver precedence: major, minor, patch; then a release above any of its
/// pre-releases; then pre-release tags in order. Build tags do not count.
pub open spec fn semver_cmp(a: SemVer, b: SemVer) -> int {
    if a.major != b.major {
        int_cmp(a.major as int, b.major as int)
    } else if a.minor != b.minor {
        int_cmp(a.minor as int, b.minor as int)
    } else if a.patch != b.patch {
        int_cmp(a.patch as int, b.patch as int)
    } else if a.pre_release@.len() == 0 && b.pre_release@.len() == 0 {
        0
    } else if a.pre_release@.len() == 0 {
        1
    } else if b.pre_release@.len() == 0 {
        -1
    } else {
        idents_cmp(a.pre_release@, b.pre_release@)
    }
}

proof fn lemma_chars_cmp(a: Seq<char>, b: Seq<char>, c: Seq<char>)
    ensures
        chars_cmp(a, b) == -chars_cmp(b, a),
        -1 <= chars_cmp(a, b) <= 1,
        chars_cmp(a, b) <= 0 && chars_cmp(b, c) <= 0 ==> chars_cmp(a, c) <= 0,
        chars_cmp(a, b) < 0 && chars_cmp(b, c) <= 0 ==> chars_cmp(a, c) < 0,
        chars_cmp(a, b) <= 0 && chars_cmp(b, c) < 0 ==> chars_cmp(a, c) < 0,
    decreases a.len(),
{
    if a.len() > 0 && b.len() > 0 && c.len() > 0 {
        lemma_chars_cmp(a.drop_first(), b.drop_first(), c.drop_first());
    } else if a.len() > 0 && b.len() > 0 {
        lemma_chars_cmp(a.drop_first(), b.drop_first(), a.drop_first());
    }
}

proof fn lemma_ident_cmp(a: Ident, b: Ident, c: Ident)
    ensures
        ident_cmp(a, b) == -ident_cmp(b, a),
        -1 <= ident_cmp(a, b) <= 1,
        ident_cmp(a, b) <= 0 && ident_cmp(b, c) <= 0 ==> ident_cmp(a, c) <= 0,
        ident_cmp(a, b) < 0 && ident_cmp(b, c) <= 0 ==> ident_cmp(a, c) < 0,
        ident_cmp(a, b) <= 0 && ident_cmp(b, c) < 0 ==> ident_cmp(a, c) < 0,
{
    match (a, b, c) {
        (Ident::AlphaNumeric(x), Ident::AlphaNumeric(y), Ident::AlphaNumeric(z)) => {
            lemma_chars_cmp(x@, y@, z@);
        },
        (Ident::AlphaNumeric(x), Ident::AlphaNumeric(y), _) => {
            lemma_chars_cmp(x@, y@, x@);
        },
        _ => {},
    }
}

proof fn lemma_idents_cmp(a: Seq<Ident>, b: Seq<Ident>, c: Seq<Ident>)
    ensures
        idents_cmp(a, b) == -idents_cmp(b, a),
        -1 <= idents_cmp(a, b) <= 1,
        idents_cmp(a, b) <= 0 && idents_cmp(b, c) <= 0 ==> idents_cmp(a, c) <= 0,
        idents_cmp(a, b) < 0 && idents_cmp(b, c) <= 0 ==> idents_cmp(a, c) < 0,
        idents_cmp(a, b) <= 0 && idents_cmp(b, c) < 0 ==> idents_cmp(a, c) < 0,
    decreases a.len(),
{
    if a.len() > 0 && b.len() > 0 {
        if c.len() > 0 {
            lemma_ident_cmp(a[0], b[0], c[0]);
            lemma_idents_cmp(a.drop_first(), b.drop_first(), c.drop_first());
        } else {
            lemma_ident_cmp(a[0], b[0], a[0]);
            lemma_idents_cmp(a.drop_first(), b.drop_first(), a.drop_first());
        }
    }
}

/// Precedence is a total preorder: antisymmetric and transitive.
pub proof fn lemma_semver_cmp(a: SemVer, b: SemVer, c: SemVer)
    ensures
        semver_cmp(a, b) == -semver_cmp(b, a),
        -1 <= semver_cmp(a, b) <= 1,
        semver_cmp(a, b) <= 0 && semver_cmp(b, c) <= 0 ==> semver_cmp(a, c) <= 0,
        semver_cmp(a, b) < 0 && semver_cmp(b, c) <= 0 ==> semver_cmp(a, c) < 0,
        semver_cmp(a, b) <= 0 && semver_cmp(b, c) < 0 ==> semver_cmp(a, c) < 0,
{
    lemma_idents_cmp(a.pre_release@, b.pre_release@, c.pre_release@);
}

/// What node-semver parses a text into, if it is a valid version.
pub uninterp spec fn parsed_version(s: Seq<char>) -> Option<SemVer>;

/// Whether node-semver accepts a text as a range.
pub uninterp spec fn range_parses(range: Seq<char>) -> bool;

/// Whether the range that a text denotes admits a version.
pub uninterp spec fn range_allows(range: Seq<char>, v: SemVer) -> bool;

/// Relies on `node_semver::Version::parse`: the version that the text
/// denotes, its fields moved over one for one.
#[verifier::external_body]
fn parse_version(s: &str) -> (r: Option<SemVer>)
    ensures
        r == parsed_version(s@),
{
    let id = |i: node_semver::Identifier| match i {
        node_semver::Identifier::Numeric(n) => Ident::Numeric(n),
        node_semver::Identifier::AlphaNumeric(t) => Ident::AlphaNumeric(t),
    };
    node_semver::Version::parse(s).ok().map(|v| SemVer {
        major: v.major, minor: v.minor, patch: v.patch,
        pre_release: v.pre_release.into_iter().map(id).collect(),
        build: v.build.into_iter().map(id).collect(),
    })
}

/// Relies on node-semver's `Ord for Version`, which compares major, minor and
/// patch, puts a release above its pre-releases, then compares pre-release
/// identifiers as derived `Ord` on `Identifier` and `Vec` does.
#[verifier::external_body]
fn compare_versions(a: &SemVer, b: &SemVer) -> (r: core::cmp::Ordering)
    ensures
        (r == core::cmp::Ordering::Less) == (semver_cmp(*a, *b) < 0),
        (r == core::cmp::Ordering::Greater) == (semver_cmp(*a, *b) > 0),
{
    let id = |i: &Ident| match i {
        Ident::Numeric(n) => node_semver::Identifier::Numeric(*n),
        Ident::AlphaNumeric(t) => node_semver::Identifier::AlphaNumeric(t.clone()),
    };
    let ver = |v: &SemVer| node_semver::Version {
        major: v.major, minor: v.minor, patch: v.patch,
        pre_release: v.pre_release.iter().map(id).collect(),
        build: v.build.iter().map(id).collect(),
    };
    ver(a).cmp(&ver(b))
}

/// Relies on `node_semver::Range::parse` and `Range::satisfies`: `None` when
/// the text is no range, else whether the range admits the version. The
/// parser stops with `unreachable!` on the texts that `range_hazard` marks,
/// so those are left out.
#[verifier::external_body]
fn range_satisfies(range: &str, v: &SemVer) -> (r: Option<bool>)
    requires
        !range_hazard(range@),
    ensures
        r is Some <==> range_parses(range@),
        r matches Some(b) ==> b == range_allows(range@, *v),
{
    let id = |i: &Ident| match i {
        Ident::Numeric(n) => node_semver::Identifier::Numeric(*n),
        Ident::AlphaNumeric(t) => node_semver::Identifier::AlphaNumeric(t.clone()),
    };
    let ver = node_semver::Version {
        major: v.major, minor: v.minor, patch: v.patch,
        pre_release: v.pre_release.iter().map(id).collect(),
        build: v.build.iter().map(id).collect(),
    };
    node_semver::Range::parse(range).ok().map(|r| r.satisfies(&ver))
}

/// Relies on `node_semver::Range::any` and `Range::satisfies`: the range has
/// one unbounded bound set, which admits every release and, having no
/// pre-release bound, no pre-release.
#[verifier::external_body]
fn any_range_allows(v: &SemVer) -> (r: bool)
    ensures
        r == (v.pre_release@.len() == 0),
{
    let id = |i: &Ident| match i {
        Ident::Numeric(n) => node_semver::Identifier::Numeric(*n),
        Ident::AlphaNumeric(t) => node_semver::Identifier::AlphaNumeric(t.clone()),
    };
    let ver = node_semver::Version {
        major: v.major, minor: v.minor, patch: v.patch,
        pre_release: v.pre_release.iter().map(id).collect(),
        build: v.build.iter().map(id).collect(),
    };
    node_semver::Range::any().satisfies(&ver)
}

/// Whether a range admits a version. No range admits every version; a
/// range text that does not parse, or that the parser cannot take, is read
/// as the range of every release.
pub open spec fn range_accepts(range: Option<Seq<char>>, v: SemVer) -> bool {
    match range {
        None => true,
        Some(r) => if !range_hazard(r) && range_parses(r) {
            range_allows(r, v)
        } else {
            v.pre_release@.len() == 0
        },
    }
}

/// A version text is a candidate when it parses and the range admits it.
pub open spec fn candidate_ok(range: Option<Seq<char>>, text: Seq<char>) -> bool {
    parsed_version(text) is Some && range_accepts(range, parsed_version(text).unwrap())
}

/// The version that a candidate text parses to.
pub open spec fn version_of(text: Seq<char>) -> SemVer {
    parsed_version(text).unwrap()
}

/// Whether the range admits the version.
pub fn accepts(range: Option<&str>, v: &SemVer) -> (r: bool)
    ensures
        r == range_accepts(
            match range {
                Some(t) => Some(t@),
                None => None,
            },
            *v,
        ),
{
    match range {
        None => true,
        Some(t) => if range_is_safe(t) {
            match range_satisfies(t, v) {
                Some(b) => b,
                None => any_range_allows(v),
            }
        } else {
            any_range_allows(v)
        },
    }
}

/// The range (if any) that an optional text denotes.
pub open spec fn range_view(range: Option<&str>) -> Option<Seq<char>> {
    match range {
        Some(t) => Some(t@),
        None => None,
    }
}

/// Entry `j` takes part in a selection: it is eligible and a candidate.
pub open spec fn selectable(
    range: Option<Seq<char>>,
    texts: Seq<Seq<char>>,
    eligible: Seq<bool>,
    j: int,
) -> bool {
    0 <= j < texts.len() && j < eligible.len() && eligible[j] && candidate_ok(range, texts[j])
}

/// Entry `i` is the selection: the highest selectable version, and the last
/// one of that precedence.
pub open spec fn is_max_candidate(
    range: Option<Seq<char>>,
    texts: Seq<Seq<char>>,
    eligible: Seq<bool>,
    i: int,
) -> bool {
    &&& selectable(range, texts, eligible, i)
    &&& forall|j: int|
        #![trigger texts[j]]
        selectable(range, texts, eligible, j) ==> semver_cmp(version_of(texts[j]), version_of(texts[i])) <= 0
    &&& forall|j: int|
        #![trigger texts[j]]
        i < j && selectable(range, texts, eligible, j) ==> semver_cmp(
            version_of(texts[j]),
            version_of(texts[i]),
        ) < 0
}

/// The selection, if any entry is selectable.
pub open spec fn max_candidate(
    range: Option<Seq<char>>,
    texts: Seq<Seq<char>>,
    eligible: Seq<bool>,
) -> Option<int> {
    if exists|i: int| is_max_candidate(range, texts, eligible, i) {
        Some(choose|i: int| is_max_candidate(range, texts, eligible, i))
    } else {
        None
    }
}

/// The texts of a list of strings.
pub open spec fn texts_view(v: Seq<String>) -> Seq<Seq<char>> {
    v.map_values(|s: String| s@)
}

/// At most one entry is the selection.
pub proof fn lemma_max_candidate_unique(
    range: Option<Seq<char>>,
    texts: Seq<Seq<char>>,
    eligible: Seq<bool>,
    i: int,
)
    requires
        is_max_candidate(range, texts, eligible, i),
    ensures
        max_candidate(range, texts, eligible) == Some(i),
{
    let k = choose|k: int| is_max_candidate(range, texts, eligible, k);
    lemma_semver_cmp(version_of(texts[i]), version_of(texts[k]), version_of(texts[i]));
    if k < i {
        assert(semver_cmp(version_of(texts[i]), version_of(texts[k])) < 0);
    } else if i < k {
        assert(semver_cmp(version_of(texts[k]), version_of(texts[i])) < 0);
    }
}

/// Index of the highest eligible version that the range admits; among
/// maxima of equal precedence, the last one.
pub fn select_max_satisfying(candidates: &Vec<String>, eligible: &Vec<bool>, range: Option<&str>) -> (r:
    Option<usize>)
    requires
        eligible@.len() == candidates@.len(),
    ensures
        r matches Some(i) ==> is_max_candidate(
            range_view(range),
            texts_view(candidates@),
            eligible@,
            i as int,
        ),
        r is None ==> forall|j: int|
            !selectable(range_view(range), texts_view(candidates@), eligible@, j),
        r == (match max_candidate(range_view(range), texts_view(candidates@), eligible@) {
            Some(i) => Some(i as usize),
            None => None,
        }),
{
    let ghost rv = range_view(range);
    let ghost ts = texts_view(candidates@);
    let mut best: Option<(usize, SemVer)> = None;
    let mut k: usize = 0;
    while k < candidates.len()
        invariant
            k <= candidates@.len() == eligible@.len() == ts.len(),
            rv == range_view(range),
            ts == texts_view(candidates@),
            match best {
                Some((i, bv)) => {
                    &&& i < k
                    &&& selectable(rv, ts, eligible@, i as int)
                    &&& bv == version_of(ts[i as int])
                    &&& forall|j: int|
                        #![trigger ts[j]]
                        j < k && selectable(rv, ts, eligible@, j) ==> semver_cmp(version_of(ts[j]), bv) <= 0
                    &&& forall|j: int|
                        #![trigger ts[j]]
                        i < j < k && selectable(rv, ts, eligible@, j) ==> semver_cmp(version_of(ts[j]), bv) < 0
                },
                None => forall|j: int| #![trigger ts[j]] j < k ==> !selectable(rv, ts, eligible@, j),
            },
        decreases candidates.len() - k,
    {
        assert(ts[k as int] == candidates@[k as int]@);
        if eligible[k] {
            match parse_version(candidates[k].as_str()) {
                Some(v) => {
                    if accepts(range, &v) {
                        let replace = match &best {
                            Some((_, bv)) => match compare_versions(&v, bv) {
                                core::cmp::Ordering::Less => false,
                                _ => true,
                            },
                            None => true,
                        };
                        if replace {
                            proof {
                                lemma_semver_cmp(v, v, v);
                                if let Some((i, bv)) = best {
                                    assert forall|j: int|
                                        #![trigger ts[j]]
                                        j < k && selectable(rv, ts, eligible@, j) implies semver_cmp(
                                        version_of(ts[j]),
                                        v,
                                    ) <= 0 by {
                                        lemma_semver_cmp(version_of(ts[j]), bv, v);
                                        lemma_semver_cmp(v, bv, v);
                                    }
                                }
                            }
                            best = Some((k, v));
                        }
                    }
                },
                None => {},
            }
        }
        k += 1;
    }
    match best {
        Some((i, _)) => {
            proof {
                lemma_max_candidate_unique(rv, ts, eligible@, i as int);
            }
            Some(i)
        },
        None => {
            proof {
                if exists|i: int| is_max_candidate(rv, ts, eligible@, i) {
                    let i = choose|i: int| is_max_candidate(rv, ts, eligible@, i);
                    assert(selectable(rv, ts, eligible@, i));
                }
            }
            None
        },
    }
}

} // verus!
