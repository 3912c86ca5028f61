use vstd::prelude::*;

use crate::encoding::bytes_equal;

verus! {

/// The nullifiers a verifier has accepted, each held once.
pub struct ReplayCache {
    pub seen: Vec<[u8; 32]>,
}

impl View for ReplayCache {
    type V = Set<Seq<u8>>;

    open spec fn view(&self) -> Set<Seq<u8>> {
        Set::new(|n: Seq<u8>| exists|i: int| 0 <= i < self.seen.len() && self.seen@[i]@ == n)
    }
}

impl ReplayCache {
    /// No nullifier is held twice.
    pub open spec fn wf(&self) -> bool {
        forall|i: int, j: int| 0 <= i < j < self.seen.len() ==> self.seen@[i]@ != self.seen@[j]@
    }

    pub fn new() -> (r: Self)
        ensures
            r.wf(),
            r@ == Set::<Seq<u8>>::empty(),
            r.seen.len() == 0,
    {
        let r = ReplayCache { seen: Vec::new() };
        assert(r@ =~= Set::<Seq<u8>>::empty());
        r
    }

    /// Whether `nullifier` was accepted before.
    pub fn contains(&self, nullifier: &[u8; 32]) -> (r: bool)
        ensures
            r == self@.contains(nullifier@),
    {
        let mut i: usize = 0;
        while i < self.seen.len()
            invariant
                i <= self.seen.len(),
                forall|j: int| 0 <= j < i ==> self.seen@[j]@ != nullifier@,
            decreases self.seen.len() - i,
        {
            if bytes_equal(&self.seen[i], nullifier) {
                return true;
            }
            i = i + 1;
        }
        false
    }

    /// Records a nullifier that is not held yet.
    pub fn insert(&mut self, nullifier: [u8; 32])
        requires
            old(self).wf(),
            !old(self)@.contains(nullifier@),
        ensures
            final(self).wf(),
            final(self)@ == old(self)@.insert(nullifier@),
            final(self).seen.len() == old(self).seen.len() + 1,
    {
        let ghost before = self.seen@;
        self.seen.push(nullifier);
        proof {
            assert forall|i: int| 0 <= i < before.len() implies before[i]@ != nullifier@ by {
                if before[i]@ == nullifier@ {
                    assert(old(self)@.contains(nullifier@));
                }
            }
            assert(self.seen@[before.len() as int] == nullifier);
            assert forall|n: Seq<u8>| #[trigger] self@.contains(n) == old(self)@.insert(nullifier@).contains(n) by {
                if self@.contains(n) {
                    let i = choose|i: int| 0 <= i < self.seen.len() && self.seen@[i]@ == n;
                    if i < before.len() {
                        assert(before[i]@ == n);
                    }
                }
                if old(self)@.contains(n) {
                    let i = choose|i: int| 0 <= i < before.len() && before[i]@ == n;
                    assert(self.seen@[i] == before[i]);
                }
            }
            assert(self@ =~= old(self)@.insert(nullifier@));
        }
    }

    /// The number of nullifiers held.
    pub fn len(&self) -> (r: usize)
        ensures
            r == self.seen.len(),
    {
        self.seen.len()
    }
}

/// A nullifier in a well-formed cache is held exactly once.
pub proof fn lemma_held_once(cache: ReplayCache, nullifier: Seq<u8>)
    requires
        cache.wf(),
        cache@.contains(nullifier),
    ensures
        exists|i: int|
            0 <= i < cache.seen.len() && cache.seen@[i]@ == nullifier && forall|j: int|
                0 <= j < cache.seen.len() && #[trigger] cache.seen@[j]@ == nullifier ==> j == i,
{
    let i = choose|i: int| 0 <= i < cache.seen.len() && cache.seen@[i]@ == nullifier;
    assert forall|j: int| 0 <= j < cache.seen.len() && #[trigger] cache.seen@[j]@ == nullifier implies j == i by {
        if j < i {
            assert(cache.seen@[j]@ != cache.seen@[i]@);
        } else if j > i {
            assert(cache.seen@[i]@ != cache.seen@[j]@);
        }
    }
}

} // verus!
