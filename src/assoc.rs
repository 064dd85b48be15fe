//! Association lists keyed by strings: the library's maps of names to values.
use vstd::prelude::*;
use crate::text::same_text;

verus! {

/// Position of the first entry whose key is `k`, or -1.
pub open spec fn key_position<V>(s: Seq<(Seq<char>, V)>, k: Seq<char>) -> int
    decreases s.len(),
{
    if s.len() == 0 {
        -1
    } else if s[0].0 == k {
        0
    } else {
        let p = key_position(s.drop_first(), k);
        if p < 0 {
            -1
        } else {
            p + 1
        }
    }
}

/// The value of the first entry whose key is `k`.
pub open spec fn assoc_get<V>(s: Seq<(Seq<char>, V)>, k: Seq<char>) -> Option<V> {
    let p = key_position(s, k);
    if p < 0 {
        None
    } else {
        Some(s[p].1)
    }
}

pub proof fn lemma_key_position<V>(s: Seq<(Seq<char>, V)>, k: Seq<char>, i: int)
    requires
        0 <= i <= s.len(),
        forall|j: int| 0 <= j < i ==> s[j].0 != k,
    ensures
        i < s.len() && s[i].0 == k ==> key_position(s, k) == i,
        i == s.len() ==> key_position(s, k) == -1,
    decreases i,
{
    if i > 0 {
        lemma_key_position(s.drop_first(), k, i - 1);
    }
}

pub proof fn lemma_key_position_bounds<V>(s: Seq<(Seq<char>, V)>, k: Seq<char>)
    ensures
        -1 <= key_position(s, k) < s.len(),
        key_position(s, k) >= 0 ==> s[key_position(s, k)].0 == k,
        key_position(s, k) == -1 ==> forall|j: int| 0 <= j < s.len() ==> s[j].0 != k,
    decreases s.len(),
{
    if s.len() > 0 && s[0].0 != k {
        lemma_key_position_bounds(s.drop_first(), k);
        assert forall|j: int| 0 < j < s.len() implies s[j] == s.drop_first()[j - 1] by {}
        if key_position(s, k) == -1 {
            assert forall|j: int| 0 <= j < s.len() implies s[j].0 != k by {
                if j > 0 {
                    assert(s[j] == s.drop_first()[j - 1]);
                }
            }
        }
    }
}

/// The entries of `pairs` with their keys viewed as character sequences.
pub open spec fn entries_view<V>(pairs: Seq<(String, V)>) -> Seq<(Seq<char>, V)> {
    pairs.map_values(|e: (String, V)| (e.0@, e.1))
}

/// The entries of a string-to-string list, viewed.
pub open spec fn pairs_view(pairs: Seq<(String, String)>) -> Seq<(Seq<char>, Seq<char>)> {
    pairs.map_values(|e: (String, String)| (e.0@, e.1@))
}

/// Index of the first entry of `pairs` whose key is `key`.
pub fn position_of<V>(pairs: &Vec<(String, V)>, key: &str) -> (r: Option<usize>)
    ensures
        match r {
            Some(i) => i < pairs@.len() && i == key_position(entries_view(pairs@), key@),
            None => key_position(entries_view(pairs@), key@) == -1,
        },
{
    let ghost s = entries_view(pairs@);
    let mut i: usize = 0;
    while i < pairs.len()
        invariant
            i <= pairs@.len() == s.len(),
            s == entries_view(pairs@),
            forall|j: int| 0 <= j < i ==> s[j].0 != key@,
        decreases pairs.len() - i,
    {
        if same_text(pairs[i].0.as_str(), key) {
            proof {
                lemma_key_position(s, key@, i as int);
            }
            return Some(i);
        }
        i += 1;
    }
    proof {
        lemma_key_position(s, key@, i as int);
    }
    None
}

/// `s` with `k` set to `v`: the first entry with key `k` takes the new
/// value in place; with no such entry, the pair goes at the end.
pub open spec fn assoc_put<V>(s: Seq<(Seq<char>, V)>, k: Seq<char>, v: V) -> Seq<(Seq<char>, V)> {
    let p = key_position(s, k);
    if p < 0 {
        s.push((k, v))
    } else {
        s.update(p, (k, v))
    }
}

/// `s` without its entries with key `k`.
pub open spec fn assoc_without<V>(s: Seq<(Seq<char>, V)>, k: Seq<char>) -> Seq<(Seq<char>, V)> {
    s.filter(|e: (Seq<char>, V)| e.0 != k)
}

/// Sets `key` to `value` (see `assoc_put`).
pub fn assoc_insert<V>(pairs: &mut Vec<(String, V)>, key: String, value: V)
    ensures
        entries_view(final(pairs)@) == assoc_put(entries_view(old(pairs)@), key@, value),
{
    proof {
        lemma_key_position_bounds(entries_view(pairs@), key@);
    }
    match position_of(pairs, key.as_str()) {
        Some(p) => {
            let ghost k = key@;
            pairs.set(p, (key, value));
            assert(entries_view(pairs@) =~= entries_view(old(pairs)@).update(p as int, (k, value)));
        },
        None => {
            let ghost k = key@;
            pairs.push((key, value));
            assert(entries_view(pairs@) =~= entries_view(old(pairs)@).push((k, value)));
        },
    }
}

/// Lists with the same keys have the same key positions.
pub proof fn lemma_same_keys_position<U, W>(a: Seq<(Seq<char>, U)>, b: Seq<(Seq<char>, W)>, k: Seq<char>)
    requires
        a.len() == b.len(),
        forall|j: int| 0 <= j < a.len() ==> a[j].0 == b[j].0,
    ensures
        key_position(a, k) == key_position(b, k),
    decreases a.len(),
{
    if a.len() > 0 && a[0].0 != k {
        lemma_same_keys_position(a.drop_first(), b.drop_first(), k);
    }
}

/// The list with `f` applied to every value.
pub open spec fn map_vals<V, W>(s: Seq<(Seq<char>, V)>, f: spec_fn(V) -> W) -> Seq<(Seq<char>, W)> {
    s.map_values(|e: (Seq<char>, V)| (e.0, f(e.1)))
}

/// Setting a key commutes with mapping the values.
pub proof fn lemma_put_map<V, W>(s: Seq<(Seq<char>, V)>, k: Seq<char>, v: V, f: spec_fn(V) -> W)
    ensures
        map_vals(assoc_put(s, k, v), f) == assoc_put(map_vals(s, f), k, f(v)),
{
    let m = map_vals(s, f);
    lemma_same_keys_position(s, m, k);
    lemma_key_position_bounds(s, k);
    assert(map_vals(assoc_put(s, k, v), f) =~= assoc_put(m, k, f(v)));
}

/// The keys of `s` are pairwise distinct.
pub open spec fn unique_keys<V>(s: Seq<(Seq<char>, V)>) -> bool {
    forall|i: int, j: int| 0 <= i < j < s.len() ==> s[i].0 != s[j].0
}

/// Setting a key keeps the keys distinct.
pub proof fn lemma_put_unique<V>(s: Seq<(Seq<char>, V)>, k: Seq<char>, v: V)
    requires
        unique_keys(s),
    ensures
        unique_keys(assoc_put(s, k, v)),
{
    lemma_key_position_bounds(s, k);
}

/// Sets `key` to `value` in a string map (see `assoc_put`).
pub fn assoc_set_text(pairs: &mut Vec<(String, String)>, key: String, value: String)
    ensures
        pairs_view(final(pairs)@) == assoc_put(pairs_view(old(pairs)@), key@, value@),
{
    proof {
        lemma_same_keys_position(entries_view(pairs@), pairs_view(pairs@), key@);
        lemma_key_position_bounds(entries_view(pairs@), key@);
    }
    match position_of(pairs, key.as_str()) {
        Some(p) => {
            let ghost k = key@;
            let ghost v = value@;
            pairs.set(p, (key, value));
            assert(pairs_view(pairs@) =~= pairs_view(old(pairs)@).update(p as int, (k, v)));
        },
        None => {
            let ghost k = key@;
            let ghost v = value@;
            pairs.push((key, value));
            assert(pairs_view(pairs@) =~= pairs_view(old(pairs)@).push((k, v)));
        },
    }
}

/// Removes every entry with key `key`.
pub fn assoc_remove(pairs: &mut Vec<(String, String)>, key: &str)
    ensures
        pairs_view(final(pairs)@) == assoc_without(pairs_view(old(pairs)@), key@),
{
    let ghost s = pairs_view(old(pairs)@);
    let mut kept: Vec<(String, String)> = Vec::new();
    let mut n: usize = pairs.len();
    let mut i: usize = 0;
    proof {
        assert(s.subrange(0, 0).filter(|e: (Seq<char>, Seq<char>)| e.0 != key@) =~= Seq::<(Seq<char>, Seq<char>)>::empty());
    }
    while pairs.len() > 0
        invariant
            n == s.len(),
            i + pairs@.len() == n,
            pairs_view(pairs@) == s.subrange(i as int, n as int),
            pairs_view(kept@) == s.subrange(0, i as int).filter(|e: (Seq<char>, Seq<char>)| e.0 != key@),
        decreases pairs.len(),
    {
        let ghost p0 = pairs@;
        let e = pairs.remove(0);
        proof {
            assert(pairs_view(p0)[0] == s.subrange(i as int, n as int)[0]);
            assert(pairs@ =~= p0.subrange(1, p0.len() as int));
            assert(pairs_view(pairs@) =~= pairs_view(p0).subrange(1, p0.len() as int));
            assert(pairs_view(pairs@) =~= s.subrange(i + 1, n as int));
            assert((e.0@, e.1@) == s[i as int]);
            assert(s.subrange(0, i + 1) =~= s.subrange(0, i as int).push(s[i as int]));
            s.subrange(0, i as int).lemma_filter_push(s[i as int], |e: (Seq<char>, Seq<char>)| e.0 != key@);
        }
        if !crate::text::same_text(e.0.as_str(), key) {
            let ghost before = kept@;
            kept.push(e);
            assert(pairs_view(kept@) =~= pairs_view(before).push(s[i as int]));
        }
        i += 1;
    }
    assert(s.subrange(0, n as int) =~= s);
    *pairs = kept;
}

} // verus!
