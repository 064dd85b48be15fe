//! Claims on keys: the first claimant of a key does the work, every later
//! one reuses it.
use vstd::prelude::*;
use vstd::string::*;
use crate::text::same_text;

verus! {

/// The keys claimed so far.
pub struct ClaimSet {
    keys: Vec<String>,
}

impl View for ClaimSet {
    type V = Set<Seq<char>>;

    closed spec fn view(&self) -> Set<Seq<char>> {
        Set::new(|k: Seq<char>| exists|i: int| 0 <= i < self.keys@.len() && self.keys@[i]@ == k)
    }
}

/// What a run of claims on `ks`, starting from the claimed set `start`,
/// returns claim by claim.
pub open spec fn claim_outcomes(start: Set<Seq<char>>, ks: Seq<Seq<char>>) -> Seq<bool>
    decreases ks.len(),
{
    if ks.len() == 0 {
        Seq::empty()
    } else {
        seq![!start.contains(ks[0])] + claim_outcomes(start.insert(ks[0]), ks.drop_first())
    }
}

impl ClaimSet {
    pub fn new() -> (r: Self)
        ensures
            r@ == Set::<Seq<char>>::empty(),
    {
        let r = ClaimSet { keys: Vec::new() };
        assert(r@ =~= Set::<Seq<char>>::empty());
        r
    }

    /// Whether `key` has been claimed.
    pub fn contains(&self, key: &str) -> (r: bool)
        ensures
            r == self@.contains(key@),
    {
        let mut i: usize = 0;
        while i < self.keys.len()
            invariant
                i <= self.keys@.len(),
                forall|j: int| 0 <= j < i ==> self.keys@[j]@ != key@,
            decreases self.keys.len() - i,
        {
            if same_text(self.keys[i].as_str(), key) {
                return true;
            }
            i += 1;
        }
        false
    }

    /// Claims `key`; true exactly when nobody had claimed it.
    pub fn claim(&mut self, key: &str) -> (won: bool)
        ensures
            won == !old(self)@.contains(key@),
            final(self)@ == old(self)@.insert(key@),
    {
        if self.contains(key) {
            assert(self@ =~= self@.insert(key@));
            return false;
        }
        let ghost before = self@;
        self.keys.push(String::from_str(key));
        proof {
            assert forall|k: Seq<char>| self@.contains(k) <==> before.insert(key@).contains(k) by {
                if before.contains(k) {
                    let i = choose|i: int| 0 <= i < old(self).keys@.len() && old(self).keys@[i]@ == k;
                    assert(self.keys@[i] == old(self).keys@[i]);
                }
                if k == key@ {
                    assert(self.keys@[self.keys@.len() - 1]@ == k);
                }
                if self@.contains(k) && k != key@ {
                    let i = choose|i: int| 0 <= i < self.keys@.len() && self.keys@[i]@ == k;
                    assert(old(self).keys@[i] == self.keys@[i]);
                }
            }
            assert(self@ =~= before.insert(key@));
        }
        true
    }
}

/// A claim in a run wins exactly when its key was neither claimed at the
/// start nor by an earlier claim of the run.
pub proof fn lemma_claim_outcome(start: Set<Seq<char>>, ks: Seq<Seq<char>>, j: int)
    requires
        0 <= j < ks.len(),
    ensures
        claim_outcomes(start, ks).len() == ks.len(),
        claim_outcomes(start, ks)[j] == !(start.contains(ks[j]) || exists|i: int|
            0 <= i < j && ks[i] == ks[j]),
    decreases ks.len(),
{
    let out = claim_outcomes(start, ks);
    let rest = claim_outcomes(start.insert(ks[0]), ks.drop_first());
    if j == 0 {
        if ks.len() > 1 {
            lemma_claim_outcome(start.insert(ks[0]), ks.drop_first(), 0);
        } else {
            assert(ks.drop_first().len() == 0);
        }
    } else {
        lemma_claim_outcome(start.insert(ks[0]), ks.drop_first(), j - 1);
        assert(out[j] == rest[j - 1]);
        if exists|i: int| 0 <= i < j - 1 && ks.drop_first()[i] == ks[j] {
            let i = choose|i: int| 0 <= i < j - 1 && ks.drop_first()[i] == ks[j];
            assert(ks[i + 1] == ks[j]);
        }
        if exists|i: int| 0 <= i < j && ks[i] == ks[j] {
            let i = choose|i: int| 0 <= i < j && ks[i] == ks[j];
            if i > 0 {
                assert(ks.drop_first()[i - 1] == ks[j]);
            }
        }
    }
}

/// Singleflight: of any run of claims, at most one claim per key wins, and
/// when the key was free at the start, the first claim on it wins. So `n`
/// concurrent requests for one key do its work exactly once.
pub proof fn lemma_single_winner(start: Set<Seq<char>>, ks: Seq<Seq<char>>, i: int, j: int)
    requires
        0 <= i < j < ks.len(),
        ks[i] == ks[j],
    ensures
        !claim_outcomes(start, ks)[j],
        !start.contains(ks[i]) && (forall|m: int| 0 <= m < i ==> ks[m] != ks[i])
            ==> claim_outcomes(start, ks)[i],
{
    lemma_claim_outcome(start, ks, i);
    lemma_claim_outcome(start, ks, j);
}

} // verus!
