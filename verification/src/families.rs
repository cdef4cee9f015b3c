//! The table of living families: how many handles hold each.

use crate::model::HOLDER_LIMIT;
use crate::quiet;
use vstd::prelude::*;

verus! {

/// The holder counts of the living families, each under a number that no
/// other living family has. A number whose count is 0 is free.
pub struct Families {
    counts: Vec<u64>,
}

impl View for Families {
    type V = Map<nat, nat>;

    closed spec fn view(&self) -> Map<nat, nat> {
        Map::new(
            |f: nat| f < self.counts@.len() && self.counts@[f as int] > 0,
            |f: nat| self.counts@[f as int] as nat,
        )
    }
}

impl Families {
    /// The living families are finitely many, and each has a holder.
    pub proof fn lemma_view(&self)
        ensures
            self@.dom().finite(),
            forall|f: nat| #[trigger] self@.contains_key(f) ==> 1 <= self@[f] <= HOLDER_LIMIT,
    {
        let bound = Set::new(|f: nat| f < self.counts@.len());
        assert(bound =~= vstd::set_lib::set_int_range(0, self.counts@.len() as int).map(
            |i: int| i as nat,
        )) by {
            assert forall|f: nat| bound.contains(f) implies vstd::set_lib::set_int_range(
                0,
                self.counts@.len() as int,
            ).map(|i: int| i as nat).contains(f) by {
                assert(vstd::set_lib::set_int_range(0, self.counts@.len() as int).contains(
                    f as int,
                ));
                assert((f as int) as nat == f);
            }
        }
        vstd::set_lib::lemma_int_range(0, self.counts@.len() as int);
        vstd::set_lib::set_int_range(0, self.counts@.len() as int).lemma_map_finite(
            |i: int| i as nat,
        );
        assert(self@.dom().subset_of(bound));
        vstd::set_lib::lemma_len_subset(self@.dom(), bound);
    }

    /// No family.
    pub fn new() -> (r: Self)
        ensures
            r@ == Map::<nat, nat>::empty(),
    {
        let r = Families { counts: Vec::new() };
        assert(r@ =~= Map::<nat, nat>::empty());
        r
    }

    /// Founds a family with one holder, under a number that no living family
    /// has.
    pub fn found(&mut self) -> (family: usize)
        ensures
            !old(self)@.contains_key(family as nat),
            final(self)@ == old(self)@.insert(family as nat, 1),
    {
        let mut i: usize = 0;
        while i < self.counts.len() && self.counts[i] > 0
            invariant
                i <= self.counts@.len(),
                *self == *old(self),
            decreases self.counts@.len() - i,
        {
            i = i + 1;
        }
        if i < self.counts.len() {
            self.counts[i] = 1;
        } else {
            self.counts.push(1);
        }
        assert(self@ =~= old(self)@.insert(i as nat, 1));
        i
    }

    /// The number of holders of `family`; 0 if it is not alive.
    pub fn holders(&self, family: usize) -> (n: u64)
        ensures
            n == if self@.contains_key(family as nat) {
                self@[family as nat]
            } else {
                0
            },
        opens_invariants none
        no_unwind
    {
        if family < quiet::len(&self.counts) {
            *quiet::element(&self.counts, family)
        } else {
            0
        }
    }

    /// Counts one more holder of `family`, unless the family is pinned or not
    /// alive. Tells whether the family is alive.
    pub fn join(&mut self, family: usize) -> (alive: bool)
        ensures
            alive == old(self)@.contains_key(family as nat),
            final(self)@ == if alive && old(self)@[family as nat] < HOLDER_LIMIT {
                old(self)@.insert(family as nat, old(self)@[family as nat] + 1)
            } else {
                old(self)@
            },
    {
        let n = self.holders(family);
        if 0 < n && n < HOLDER_LIMIT {
            self.counts[family] = n + 1;
            assert(self@ =~= old(self)@.insert(family as nat, old(self)@[family as nat] + 1));
        }
        n > 0
    }

    /// Counts one holder of `family` less, unless the family is pinned or not
    /// alive. With its last holder the family is no longer alive.
    pub fn leave(&mut self, family: usize)
        ensures
            final(self)@ == if !old(self)@.contains_key(family as nat) || old(self)@[family as nat]
                >= HOLDER_LIMIT {
                old(self)@
            } else if old(self)@[family as nat] > 1 {
                old(self)@.insert(family as nat, (old(self)@[family as nat] - 1) as nat)
            } else {
                old(self)@.remove(family as nat)
            },
        opens_invariants none
        no_unwind
    {
        let n = self.holders(family);
        if 0 < n && n < HOLDER_LIMIT {
            quiet::set(&mut self.counts, family, n - 1);
            proof {
                if n > 1 {
                    assert(self@ =~= old(self)@.insert(
                        family as nat,
                        (old(self)@[family as nat] - 1) as nat,
                    ));
                } else {
                    assert(self@ =~= old(self)@.remove(family as nat));
                }
            }
        }
    }
}

} // verus!
