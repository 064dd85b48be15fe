//! Range texts that node-semver's range parser cannot take: it stops with
//! `unreachable!` on an `=` whose major is a wildcard (`=*`, `= X`), and on a
//! tilde whose major is a wildcard (`~*`, `~>x`) or whose minor is a
//! wildcard followed by a patch (`~1.x.3`). The check here finds every such
//! place, and a few harmless look-alikes with it.
use vstd::prelude::*;
use vstd::string::*;

verus! {

/// Space or tab, as the range grammar skips them.
pub open spec fn is_blank(c: char) -> bool {
    c == ' ' || c == '\t'
}

pub open spec fn is_digit(c: char) -> bool {
    '0' <= c && c <= '9'
}

/// `x`, `X` or `*`: a wildcard version component.
pub open spec fn is_wild(c: char) -> bool {
    c == 'x' || c == 'X' || c == '*'
}

/// The first index from `i` on that is not a blank (or, with `digits`, not
/// a digit).
pub open spec fn skip_class(s: Seq<char>, i: int, digits: bool) -> int
    decreases s.len() - i,
{
    if 0 <= i < s.len() && (if digits {
        is_digit(s[i])
    } else {
        is_blank(s[i])
    }) {
        skip_class(s, i + 1, digits)
    } else {
        i
    }
}

/// From `i`: skip blanks, then an optional `c` followed by blanks.
pub open spec fn skip_opt(s: Seq<char>, i: int, c: char) -> int {
    let j = skip_class(s, i, false);
    if 0 <= j < s.len() && s[j] == c {
        skip_class(s, j + 1, false)
    } else {
        j
    }
}

/// A wildcard stands at `j`.
pub open spec fn wild_at(s: Seq<char>, j: int) -> bool {
    0 <= j < s.len() && is_wild(s[j])
}

/// At `i` an `=` whose version starts with a wildcard.
pub open spec fn exact_hazard(s: Seq<char>, i: int) -> bool {
    s[i] == '=' && wild_at(s, skip_opt(s, i + 1, 'v'))
}

/// At `i` a tilde whose major is a wildcard, or whose minor is a wildcard
/// followed by a further component.
pub open spec fn tilde_hazard(s: Seq<char>, i: int) -> bool {
    let j = skip_opt(s, skip_opt(s, i + 1, '>'), 'v');
    let k = skip_class(s, j, true);
    s[i] == '~' && (wild_at(s, j) || (k > j && k + 2 < s.len() && s[k] == '.' && is_wild(s[k + 1])
        && s[k + 2] == '.'))
}

/// At `i` the range parser would stop.
pub open spec fn hazard_at(s: Seq<char>, i: int) -> bool {
    exact_hazard(s, i) || tilde_hazard(s, i)
}

/// The text holds a place where the range parser would stop.
pub open spec fn range_hazard(s: Seq<char>) -> bool {
    exists|i: int| 0 <= i < s.len() && #[trigger] hazard_at(s, i)
}

proof fn lemma_skip_class_bounds(s: Seq<char>, i: int, digits: bool)
    requires
        0 <= i,
    ensures
        i <= skip_class(s, i, digits),
        i <= s.len() ==> skip_class(s, i, digits) <= s.len(),
    decreases s.len() - i,
{
    if 0 <= i < s.len() && (if digits {
        is_digit(s[i])
    } else {
        is_blank(s[i])
    }) {
        lemma_skip_class_bounds(s, i + 1, digits);
    }
}

/// Whether the character at `j` is a digit (or, without `digits`, a blank).
fn in_class(s: &str, j: usize, digits: bool) -> (r: bool)
    requires
        j < s@.len(),
    ensures
        r == (if digits {
            is_digit(s@[j as int])
        } else {
            is_blank(s@[j as int])
        }),
{
    let c = s.get_char(j);
    if digits {
        '0' <= c && c <= '9'
    } else {
        c == ' ' || c == '\t'
    }
}

/// `skip_class` over a string.
fn skip_chars(s: &str, n: usize, i: usize, digits: bool) -> (r: usize)
    requires
        n == s@.len(),
        i <= n,
    ensures
        r as int == skip_class(s@, i as int, digits),
        i <= r <= n,
{
    let mut j = i;
    while j < n && in_class(s, j, digits)
        invariant
            i <= j <= n,
            n == s@.len(),
            skip_class(s@, j as int, digits) == skip_class(s@, i as int, digits),
        decreases n - j,
    {
        j += 1;
    }
    j
}

/// `skip_opt` over a string.
fn skip_optional(s: &str, n: usize, i: usize, c: char) -> (r: usize)
    requires
        n == s@.len(),
        i <= n,
    ensures
        r as int == skip_opt(s@, i as int, c),
        i <= r <= n,
{
    let j = skip_chars(s, n, i, false);
    if j < n && s.get_char(j) == c {
        skip_chars(s, n, j + 1, false)
    } else {
        j
    }
}

/// Whether a wildcard stands at `j`.
fn wild_char_at(s: &str, n: usize, j: usize) -> (r: bool)
    requires
        n == s@.len(),
    ensures
        r == wild_at(s@, j as int),
{
    if j < n {
        let c = s.get_char(j);
        c == 'x' || c == 'X' || c == '*'
    } else {
        false
    }
}

/// Whether the range parser can take `range` without stopping.
pub fn range_is_safe(range: &str) -> (r: bool)
    ensures
        r == !range_hazard(range@),
{
    let n = range.unicode_len();
    let mut i: usize = 0;
    while i < n
        invariant
            i <= n == range@.len(),
            forall|m: int| 0 <= m < i ==> !#[trigger] hazard_at(range@, m),
        decreases n - i,
    {
        let c = range.get_char(i);
        if c == '=' {
            let j = skip_optional(range, n, i + 1, 'v');
            if wild_char_at(range, n, j) {
                assert(exact_hazard(range@, i as int));
                assert(hazard_at(range@, i as int));
                return false;
            }
        } else if c == '~' {
            let j0 = skip_optional(range, n, i + 1, '>');
            let j = skip_optional(range, n, j0, 'v');
            if wild_char_at(range, n, j) {
                assert(tilde_hazard(range@, i as int));
                assert(hazard_at(range@, i as int));
                return false;
            }
            let k = skip_chars(range, n, j, true);
            if k > j && k < n && n - k > 2 && range.get_char(k) == '.' && wild_char_at(range, n, k + 1)
                && range.get_char(k + 2) == '.' {
                assert(tilde_hazard(range@, i as int));
                assert(hazard_at(range@, i as int));
                return false;
            }
        }
        assert(!hazard_at(range@, i as int));
        i += 1;
    }
    true
}

} // verus!
