//! The map as a mathematical value.
//!
//! Every handle belongs to a *family*: the handles that one `insert` gave
//! rise to, directly or through later lookups. A family is alive for as long
//! as it has a holder. The index maps a key to the family that lookups of
//! that key join, and to the value that they reach.

use vstd::prelude::*;

verus! {

/// The holder count at which a family is pinned: it is no longer counted up
/// or down, and never torn down.
pub const HOLDER_LIMIT: u64 = 0xffff_ffff_ffff_ffff;

/// What the index records for a key.
pub struct Link<V> {
    pub family: nat,
    pub value: V,
}

/// The state of a map: what each indexed key leads to, and how many handles
/// hold each living family.
#[verifier::reject_recursive_types(K)]
pub struct State<K, V> {
    pub index: Map<K, Link<V>>,
    pub families: Map<nat, nat>,
}

/// One operation on a map.
pub enum Step<K, V> {
    Insert { key: K, value: V, family: nat },
    Get { key: K },
    Release { family: nat },
}

impl<K, V> State<K, V> {
    /// The map that `new` makes.
    pub open spec fn empty() -> Self {
        State { index: Map::empty(), families: Map::empty() }
    }

    /// Every indexed key leads to a living family, no two keys lead to the
    /// same one, and every living family has a holder.
    pub open spec fn wf(self) -> bool {
        &&& self.index.dom().finite()
        &&& self.families.dom().finite()
        &&& forall|k: K| #[trigger]
            self.index.contains_key(k) ==> self.families.contains_key(self.index[k].family)
        &&& forall|j: K, k: K|
            #![trigger self.index[j], self.index[k]]
            self.index.contains_key(j) && self.index.contains_key(k) && j != k
                ==> self.index[j].family != self.index[k].family
        &&& forall|f: nat| #[trigger]
            self.families.contains_key(f) ==> 1 <= self.families[f] <= HOLDER_LIMIT
    }

    /// The index without the key that leads to `family`.
    pub open spec fn without(self, family: nat) -> Map<K, Link<V>> {
        Map::new(
            |k: K| self.index.contains_key(k) && self.index[k].family != family,
            |k: K| self.index[k],
        )
    }

    /// The number of indexed keys.
    pub open spec fn len(self) -> nat {
        self.index.len()
    }

    /// What a lookup of `key` finds.
    pub open spec fn lookup(self, key: K) -> Option<Link<V>> {
        if self.index.contains_key(key) {
            Some(self.index[key])
        } else {
            None
        }
    }

    /// The number of holders of `family`; 0 for a family that is not alive.
    pub open spec fn holders(self, family: nat) -> nat {
        if self.families.contains_key(family) {
            self.families[family]
        } else {
            0
        }
    }

    /// The family has one more holder, unless it is pinned or not alive.
    pub open spec fn retained(self, family: nat) -> Self {
        if self.families.contains_key(family) && self.families[family] < HOLDER_LIMIT {
            State { families: self.families.insert(family, self.families[family] + 1), ..self }
        } else {
            self
        }
    }

    /// `insert(key, value)`, when the new handle founds `family`: the index
    /// leads `key` to the new family, whatever it led to before.
    pub open spec fn inserted(self, key: K, value: V, family: nat) -> Self {
        State {
            index: self.index.insert(key, Link { family, value }),
            families: self.families.insert(family, 1),
        }
    }

    /// `get(key)`: the family that `key` leads to gets one more holder.
    pub open spec fn acquired(self, key: K) -> Self {
        if self.index.contains_key(key) {
            self.retained(self.index[key].family)
        } else {
            self
        }
    }

    /// The release of one handle of `family`. The last holder takes the
    /// family away, and with it the key that leads to it. A family that the
    /// index no longer leads to, because its key was inserted anew, goes
    /// without a change to the index.
    pub open spec fn released(self, family: nat) -> Self {
        if !self.families.contains_key(family) || self.families[family] >= HOLDER_LIMIT {
            self
        } else if self.families[family] > 1 {
            State {
                families: self.families.insert(family, (self.families[family] - 1) as nat),
                ..self
            }
        } else {
            State { index: self.without(family), families: self.families.remove(family) }
        }
    }

    /// The state after one operation.
    pub open spec fn step(self, step: Step<K, V>) -> Self {
        match step {
            Step::Insert { key, value, family } => self.inserted(key, value, family),
            Step::Get { key } => self.acquired(key),
            Step::Release { family } => self.released(family),
        }
    }

    /// The state that a run of operations leaves, starting from `self`.
    pub open spec fn run(self, steps: Seq<Step<K, V>>) -> Self
        decreases steps.len(),
    {
        if steps.len() == 0 {
            self
        } else {
            self.run(steps.drop_last()).step(steps.last())
        }
    }

    /// The state after inserting `keys[i]` with `values[i]` as the founder of
    /// `families[i]`, for each `i` in turn.
    pub open spec fn inserted_all(self, keys: Seq<K>, values: Seq<V>, families: Seq<nat>) -> Self
        decreases keys.len(),
    {
        if keys.len() == 0 || values.len() != keys.len() || families.len() != keys.len() {
            self
        } else {
            self.inserted_all(keys.drop_last(), values.drop_last(), families.drop_last()).inserted(
                keys.last(),
                values.last(),
                families.last(),
            )
        }
    }
}

/// An insert that founds a family which was not alive keeps the state well
/// formed.
pub proof fn lemma_inserted_wf<K, V>(s: State<K, V>, key: K, value: V, family: nat)
    requires
        s.wf(),
        !s.families.contains_key(family),
    ensures
        s.inserted(key, value, family).wf(),
{
    let t = s.inserted(key, value, family);
    assert forall|k: K| #[trigger] t.index.contains_key(k) implies t.families.contains_key(
        t.index[k].family,
    ) by {
        if k != key {
            assert(s.index.contains_key(k));
        }
    }
    assert forall|j: K, k: K|
        #![trigger t.index[j], t.index[k]]
        t.index.contains_key(j) && t.index.contains_key(k) && j != k implies t.index[j].family
        != t.index[k].family by {
        if j != key {
            assert(s.index.contains_key(j));
        }
        if k != key {
            assert(s.index.contains_key(k));
        }
    }
    assert forall|f: nat| #[trigger] t.families.contains_key(f) implies 1 <= t.families[f]
        <= HOLDER_LIMIT by {
        if f != family {
            assert(s.families.contains_key(f));
        }
    }
}

/// One more holder keeps the state well formed and the index as it was.
pub proof fn lemma_retained_wf<K, V>(s: State<K, V>, family: nat)
    requires
        s.wf(),
    ensures
        s.retained(family).wf(),
        s.retained(family).index == s.index,
{
    let t = s.retained(family);
    if s.families.contains_key(family) && s.families[family] < HOLDER_LIMIT {
        assert(t.families.dom() =~= s.families.dom());
        assert forall|f: nat| #[trigger] t.families.contains_key(f) implies 1 <= t.families[f]
            <= HOLDER_LIMIT by {
            assert(s.families.contains_key(f));
        }
    }
}

/// What the last holder of a family takes out of the index: the one key that
/// leads to the family, or nothing.
pub proof fn lemma_without<K, V>(s: State<K, V>, family: nat)
    requires
        s.wf(),
    ensures
        forall|k: K|
            s.index.contains_key(k) && s.index[k].family == family ==> s.without(family)
                == s.index.remove(k),
        (forall|k: K| s.index.contains_key(k) ==> s.index[k].family != family) ==> s.without(
            family,
        ) == s.index,
{
    assert forall|k: K| s.index.contains_key(k) && s.index[k].family == family implies s.without(
        family,
    ) == s.index.remove(k) by {
        assert forall|j: K| s.index.remove(k).contains_key(j) implies s.index[j].family
            != family by {
            assert(s.index.contains_key(j) && j != k);
        }
        assert(s.without(family) =~= s.index.remove(k));
    }
    if forall|k: K| s.index.contains_key(k) ==> s.index[k].family != family {
        assert(s.without(family) =~= s.index);
    }
}

/// A release keeps the state well formed.
pub proof fn lemma_released_wf<K, V>(s: State<K, V>, family: nat)
    requires
        s.wf(),
    ensures
        s.released(family).wf(),
{
    let t = s.released(family);
    if !s.families.contains_key(family) || s.families[family] >= HOLDER_LIMIT {
    } else if s.families[family] > 1 {
        assert(t.families.dom() =~= s.families.dom());
        assert forall|f: nat| #[trigger] t.families.contains_key(f) implies 1 <= t.families[f]
            <= HOLDER_LIMIT by {
            assert(s.families.contains_key(f));
        }
    } else {
        assert(t.index.dom().subset_of(s.index.dom()));
        vstd::set_lib::lemma_len_subset(t.index.dom(), s.index.dom());
        assert forall|k: K| #[trigger] t.index.contains_key(k) implies t.families.contains_key(
            t.index[k].family,
        ) by {
            assert(s.index.contains_key(k));
        }
        assert forall|j: K, k: K|
            #![trigger t.index[j], t.index[k]]
            t.index.contains_key(j) && t.index.contains_key(k) && j != k implies t.index[j].family
            != t.index[k].family by {
            assert(s.index.contains_key(j) && s.index.contains_key(k));
        }
        assert forall|f: nat| #[trigger] t.families.contains_key(f) implies 1 <= t.families[f]
            <= HOLDER_LIMIT by {
            assert(s.families.contains_key(f));
        }
    }
}

/// A key that no insert of a run names is not found after the run, if it was
/// not found before: in particular a key that was never inserted into a new
/// map is never found.
pub proof fn law_key_never_inserted_is_absent<K, V>(s: State<K, V>, steps: Seq<Step<K, V>>, key: K)
    requires
        s.lookup(key) is None,
        forall|i: int|
            0 <= i < steps.len() ==> !(#[trigger] steps[i] matches Step::Insert { key: k, .. }
                && k == key),
    ensures
        s.run(steps).lookup(key) is None,
        State::<K, V>::empty().lookup(key) is None,
    decreases steps.len(),
{
    if steps.len() > 0 {
        let before = steps.drop_last();
        assert forall|i: int| 0 <= i < before.len() implies !(#[trigger] before[i] matches Step::Insert {
            key: k,
            ..
        } && k == key) by {
            assert(before[i] == steps[i]);
        }
        law_key_never_inserted_is_absent(s, before, key);
        let last = steps[steps.len() - 1];
        assert(last == steps.last());
    }
}

/// After the insert of a key that was not indexed, a lookup of the key
/// reaches the inserted value, as a holder of the new family beside its
/// founder, and the map has exactly one key more.
pub proof fn law_insert_then_get<K, V>(s: State<K, V>, key: K, value: V, family: nat)
    requires
        s.wf(),
        s.lookup(key) is None,
        !s.families.contains_key(family),
    ensures
        s.inserted(key, value, family).lookup(key) == Some(Link { family, value }),
        s.inserted(key, value, family).len() == s.len() + 1,
        s.inserted(key, value, family).holders(family) == 1,
        s.inserted(key, value, family).acquired(key).holders(family) == 2,
        s.inserted(key, value, family).acquired(key).len() == s.len() + 1,
{
}

/// An insert changes what no other key leads to.
pub proof fn law_insert_keeps_other_keys<K, V>(
    s: State<K, V>,
    key: K,
    value: V,
    family: nat,
    other: K,
)
    requires
        other != key,
    ensures
        s.inserted(key, value, family).lookup(other) == s.lookup(other),
{
}

/// The release of the only handle of the family that a key leads to takes
/// the key out of the map: there is one key less, a lookup finds nothing, and
/// a map that held no other key is empty.
pub proof fn law_sole_release_removes<K, V>(s: State<K, V>, key: K)
    requires
        s.wf(),
        s.lookup(key) is Some,
        s.holders(s.index[key].family) == 1,
    ensures
        s.released(s.index[key].family).len() == s.len() - 1,
        s.released(s.index[key].family).lookup(key) is None,
        s.len() == 1 ==> s.released(s.index[key].family).index =~= Map::empty(),
        forall|other: K|
            other != key ==> s.released(s.index[key].family).lookup(other) == s.lookup(other),
{
    let family = s.index[key].family;
    let t = s.released(family);
    assert(s.families.contains_key(family));
    lemma_without(s, family);
    assert(t.index == s.index.remove(key));
    if s.len() == 1 {
        assert(t.index.len() == 0);
        assert(t.index.dom().finite());
        vstd::set_lib::lemma_set_empty_equivalency_len(t.index.dom());
        assert(t.index.dom() =~= Set::empty());
    }
}

/// The last handle of a family that the index no longer leads to, because
/// its key was inserted anew, goes and leaves the index as it is: the key
/// stays with the family that it leads to now.
pub proof fn law_replaced_family_goes_alone<K, V>(s: State<K, V>, family: nat)
    requires
        s.wf(),
        forall|k: K| s.index.contains_key(k) ==> s.index[k].family != family,
    ensures
        s.released(family).index == s.index,
        s.released(family).holders(family) == if 1 < s.holders(family) < HOLDER_LIMIT {
            (s.holders(family) - 1) as nat
        } else if s.holders(family) == 1 {
            0
        } else {
            s.holders(family)
        },
{
    lemma_without(s, family);
}

/// While a second handle of a family is held, the release of one of the two
/// leaves the map as it was: the key stays indexed and the length stays. The
/// release of the other then takes the key out.
pub proof fn law_second_holder_keeps_entry<K, V>(s: State<K, V>, key: K)
    requires
        s.wf(),
        s.lookup(key) is Some,
        s.holders(s.index[key].family) == 2,
    ensures
        s.released(s.index[key].family).lookup(key) == s.lookup(key),
        s.released(s.index[key].family).len() == s.len(),
        s.released(s.index[key].family).holders(s.index[key].family) == 1,
        s.released(s.index[key].family).released(s.index[key].family).lookup(key) is None,
        s.released(s.index[key].family).released(s.index[key].family).len() == s.len() - 1,
{
    let family = s.index[key].family;
    let t = s.released(family);
    assert(s.families.contains_key(family));
    assert(t.index == s.index);
    assert(t.families.contains_key(family));
    lemma_released_wf(s, family);
    law_sole_release_removes(t, key);
}

/// Inserting keys that are pairwise different, and none of them indexed
/// before, succeeds for each: all of them are found afterwards, with their
/// values, and the map has that many keys more.
pub proof fn law_distinct_inserts_all_found<K, V>(
    s: State<K, V>,
    keys: Seq<K>,
    values: Seq<V>,
    families: Seq<nat>,
)
    requires
        s.index.dom().finite(),
        values.len() == keys.len(),
        families.len() == keys.len(),
        forall|i: int, j: int| 0 <= i < j < keys.len() ==> keys[i] != keys[j],
        forall|i: int| 0 <= i < keys.len() ==> s.lookup(#[trigger] keys[i]) is None,
    ensures
        s.inserted_all(keys, values, families).len() == s.len() + keys.len(),
        s.inserted_all(keys, values, families).index.dom().finite(),
        forall|i: int|
            0 <= i < keys.len() ==> s.inserted_all(keys, values, families).lookup(
                #[trigger] keys[i],
            ) == Some(Link { family: families[i], value: values[i] }),
        forall|k: K|
            !keys.contains(k) ==> s.inserted_all(keys, values, families).lookup(k) == s.lookup(k),
    decreases keys.len(),
{
    if keys.len() > 0 {
        let n = keys.len() - 1;
        let (k0, v0, f0) = (keys.drop_last(), values.drop_last(), families.drop_last());
        law_distinct_inserts_all_found(s, k0, v0, f0);
        let mid = s.inserted_all(k0, v0, f0);
        let end = s.inserted_all(keys, values, families);
        assert(end == mid.inserted(keys[n], values[n], families[n]));
        assert(!k0.contains(keys[n]));
        assert(mid.lookup(keys[n]) == s.lookup(keys[n]));
        assert forall|i: int| 0 <= i < keys.len() implies end.lookup(#[trigger] keys[i]) == Some(
            Link { family: families[i], value: values[i] },
        ) by {
            if i < n {
                assert(k0[i] == keys[i]);
                assert(mid.lookup(k0[i]) == Some(Link { family: f0[i], value: v0[i] }));
            }
        }
        assert forall|k: K| !keys.contains(k) implies end.lookup(k) == s.lookup(k) by {
            assert(keys[n] == keys.last());
            assert(k != keys[n]);
            if k0.contains(k) {
                let i = choose|i: int| 0 <= i < k0.len() && k0[i] == k;
                assert(keys[i] == k);
            }
        }
    }
}

} // verus!
