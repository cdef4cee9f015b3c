//! The ordered map for threads.

use crate::entries::Entry;
use crate::entries::Ticket;
use crate::sorted_index::SortedIndex;
use crate::synchronous::lock::content;
use crate::synchronous::lock::content_mut;
use crate::synchronous::lock::exclusive;
use crate::synchronous::lock::shared;
use std::ops::Deref;
use std::sync::Arc;
use std::sync::RwLock;
use vstd::prelude::*;

verus! {

/// A map from ordered keys to values, in which a key stays for as long as a
/// handle to its value is held.
#[verifier::reject_recursive_types(K)]
#[verifier::reject_recursive_types(V)]
pub struct RodBTreeMap<K: Ord, V> {
    inner: Arc<RwLock<SortedIndex<K, V>>>,
}

/// A handle to a value of a [`RodBTreeMap`]. It gives read access to the
/// value; when it goes, its family has one holder less, and the last holder
/// takes the key out of the map.
#[verifier::reject_recursive_types(K)]
#[verifier::reject_recursive_types(V)]
pub struct RodGuard<K: Ord, V> {
    parent: Arc<RwLock<SortedIndex<K, V>>>,
    family: usize,
    value: Arc<V>,
}

impl<K: Ord, V> RodBTreeMap<K, V> {
    /// The lock that guards the map's index. A handle of the map is bound to
    /// this lock: its release goes to the index behind it.
    pub closed spec fn home(&self) -> RwLock<SortedIndex<K, V>> {
        *self.inner
    }

    /// A map without keys.
    pub fn new() -> (map: Self) {
        RodBTreeMap { inner: Arc::new(RwLock::new(SortedIndex::new())) }
    }

    /// The number of keys in the map.
    pub fn len(&self) -> (n: usize) {
        let guard = shared(&self.inner);
        content(&guard).len()
    }

    /// Whether the map has no key.
    pub fn is_empty(&self) -> (b: bool) {
        let guard = shared(&self.inner);
        content(&guard).is_empty()
    }

    /// Puts `value` into the map under `key` and returns the first handle to
    /// it. A key that is in the map already leads to the new value from now
    /// on; the handles to the old value stay good.
    pub fn insert(&mut self, key: K, value: V) -> (guard: Arc<RodGuard<K, V>>)
        ensures
            guard.value() == value,
            guard.home() == old(self).home(),
            final(self).home() == old(self).home(),
    {
        let ticket = Self::insert_locked(&self.inner, key, value);
        Arc::new(RodGuard::new(Arc::clone(&self.inner), ticket))
    }

    /// A new handle to the value under `key`, if the key is in the map. The
    /// index is locked exclusively for it: the lookup counts the new handle.
    pub fn get(&self, key: &K) -> (guard: Option<Arc<RodGuard<K, V>>>)
        ensures
            guard matches Some(found) ==> found.home() == self.home(),
    {
        match Self::get_locked(&self.inner, key) {
            Some(ticket) => Some(Arc::new(RodGuard::new(Arc::clone(&self.inner), ticket))),
            None => None,
        }
    }

    fn insert_locked(inner: &RwLock<SortedIndex<K, V>>, key: K, value: V) -> (ticket: Ticket<V>)
        ensures
            *ticket.value == value,
    {
        let mut guard = exclusive(inner);
        content_mut(&mut guard).insert(key, value)
    }

    fn get_locked(inner: &RwLock<SortedIndex<K, V>>, key: &K) -> (ticket: Option<Ticket<V>>) {
        let mut guard = exclusive(inner);
        content_mut(&mut guard).get(key)
    }
}

impl<K: Ord, V> RodGuard<K, V> {
    /// The value that the handle reaches.
    pub closed spec fn value(&self) -> V {
        *self.value
    }

    /// The family that the handle belongs to.
    pub closed spec fn family(&self) -> nat {
        self.family as nat
    }

    /// The lock of the map that the handle belongs to.
    pub closed spec fn home(&self) -> RwLock<SortedIndex<K, V>> {
        *self.parent
    }

    /// Releases the handle in the index of its map, under the map's lock.
    /// The record that the release took out comes back, so that it is dropped
    /// when the lock is free again.
    fn leave(&self) -> (gone: Option<Entry<K, V>>)
        ensures
            gone matches Some(e) ==> e.link().family == self.family(),
        opens_invariants none
        no_unwind
    {
        let mut guard = exclusive(&self.parent);
        content_mut(&mut guard).release(self.family)
    }

    fn new(parent: Arc<RwLock<SortedIndex<K, V>>>, ticket: Ticket<V>) -> (guard: Self)
        ensures
            guard.value() == *ticket.value,
            guard.family() == ticket.family,
            guard.home() == *parent,
    {
        RodGuard { parent, family: ticket.family, value: ticket.value }
    }
}

impl<K: Ord, V> Deref for RodGuard<K, V> {
    type Target = V;

    fn deref(&self) -> (value: &V)
        ensures
            *value == self.value(),
    {
        &self.value
    }
}

impl<K: Ord, V> Drop for RodGuard<K, V> {
    fn drop(&mut self)
        opens_invariants none
        no_unwind
    {
        let _gone = self.leave();
    }
}

} // verus!
