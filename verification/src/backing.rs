//! The shared concurrent backing map, held behind trusted wrappers.
//!
//! The cache keeps its entries in a `dashmap::DashMap`, shared by reference
//! counting among one writer handle and any number of reader handles. Verus
//! cannot look inside the concurrent map, so this module gives the handle an
//! opaque type and names what the map holds with [`store_contents`].
//!
//! The name is exact only for the writer's own handle. The writer is the
//! sole mutator of a given backing map (a documented precondition of the
//! cache, see [`crate::store::Writer`]), every mutating wrapper takes that
//! handle by `&mut`, and no handle minted by [`SharedStore::share`] or
//! [`SharedStore::share_current`] can mutate, so the writer's named
//! contents track the real map across the whole execution, and a handle
//! minted from it by `share_current` holds the writer's contents at that
//! moment. A shared handle, by contrast, observes a map that evolves
//! underneath it: no contract here ties what a read through such a handle
//! returns to any fixed contents, because none would be true of the live
//! map. The read wrappers promise only what holds of every outcome,
//! however reads and writes interleave: no key is visited twice, and every
//! value the map hands out was stored by [`SharedStore::insert`], whose
//! `requires` admits only a value keyed by its own identity.

use std::sync::Arc;
use dashmap::DashMap;
use vstd::prelude::*;
use crate::objects::{
    CachedObject, KeyView, ObjView, ObjectKey, key_of, key_vec_contains, key_view_set,
};

verus! {

/// One handle on the shared backing map. Cloning the handle (via
/// [`SharedStore::share`]) shares the same map; the map lives until the last
/// handle is dropped.
#[verifier::external_body]
pub struct SharedStore {
    inner: Arc<DashMap<ObjectKey, CachedObject>>,
}

/// The entries of the backing map behind the handle `s`, as a mathematical
/// map from key views to object views. Exact only for the writer's own,
/// never-shared-for-mutation handle; see the module documentation.
pub uninterp spec fn store_contents(s: SharedStore) -> Map<KeyView, ObjView>;

/// The contents of a backing map that holds nothing.
pub open spec fn empty_contents() -> Map<KeyView, ObjView> {
    Map::empty()
}

/// Relies on `dashmap::DashMap::with_capacity` and `std::sync::Arc::new`: a
/// freshly created map holds no entries, whatever capacity is reserved.
/// The bound on `capacity` keeps dashmap's shard-rounding arithmetic, which
/// adds the shard count before dividing, away from overflow.
#[verifier::external_body]
pub(crate) fn new_shared_store(capacity: usize) -> (r: SharedStore)
    requires
        capacity <= 0xffff_ffff,
    ensures
        store_contents(r) == empty_contents(),
{
    SharedStore { inner: Arc::new(DashMap::with_capacity(capacity)) }
}

impl SharedStore {
    /// Relies on `std::sync::Arc::clone`: the new handle points at the very
    /// same live backing map. It carries no contract: the handle it is
    /// called on may itself be stale relative to the live map, so no true
    /// tie between the two handles' named contents exists. It is the
    /// sharing path for reader handles ([`crate::store::Store::clone`]).
    #[verifier::external_body]
    pub(crate) fn share(&self) -> SharedStore {
        SharedStore { inner: Arc::clone(&self.inner) }
    }

    /// Relies on `std::sync::Arc::clone`: the new handle points at the very
    /// same live backing map, so at the moment of minting it holds exactly
    /// the entries behind `self`. The equality is stated only here, for a
    /// handle whose named contents are current — in this crate the
    /// writer's own handle, the sole mutation path (see the module
    /// documentation); reader handles clone through [`SharedStore::share`],
    /// which claims nothing.
    #[verifier::external_body]
    pub(crate) fn share_current(&self) -> (r: SharedStore)
        ensures
            store_contents(r) == store_contents(*self),
    {
        SharedStore { inner: Arc::clone(&self.inner) }
    }

    /// Relies on `dashmap::DashMap::get`: returns a copy of the value the
    /// live map holds under a key equal to `key` at the instant of the
    /// read, or nothing if that key is absent then. The value is cloned so
    /// that the per-entry lock is released immediately. Which instant the
    /// read observes depends on how it interleaves with the writer, so the
    /// ensures does not tie the result to named contents; it states what
    /// holds of every outcome: the map only ever receives values through
    /// [`SharedStore::insert`], whose `requires` admits only a value stored
    /// under its own identity, so any value handed back is keyed by its
    /// identity.
    #[verifier::external_body]
    pub(crate) fn lookup(&self, key: &ObjectKey) -> (r: Option<CachedObject>)
        ensures
            r matches Option::Some(v) ==> key_of(v@) == key@,
    {
        self.inner.get(key).map(|entry| entry.value().clone())
    }

    /// Relies on `dashmap::DashMap::insert`: stores `value` under `key`,
    /// replacing any previous value for that key. The `requires` keeps the
    /// map identity-keyed: only a value stored under its own identity is
    /// admitted, which is what lets the read wrappers promise that of
    /// every value the map hands out.
    #[verifier::external_body]
    pub(crate) fn insert(&mut self, key: ObjectKey, value: CachedObject)
        requires
            key@ == key_of(value@),
        ensures
            store_contents(*final(self)) == store_contents(*old(self)).insert(key@, value@),
    {
        self.inner.insert(key, value);
    }

    /// Relies on `dashmap::DashMap::remove`: removes the entry stored under
    /// `key`; a miss leaves the map unchanged.
    #[verifier::external_body]
    pub(crate) fn remove(&mut self, key: &ObjectKey)
        ensures
            store_contents(*final(self)) == store_contents(*old(self)).remove(key@),
    {
        self.inner.remove(key);
    }

    /// Relies on `dashmap::DashMap::retain`: keeps exactly the entries whose
    /// key the predicate accepts. The closure only calls the verified
    /// [`key_vec_contains`], which decides membership of the key's view in
    /// `keys`.
    #[verifier::external_body]
    pub(crate) fn retain_keys(&mut self, keys: &Vec<ObjectKey>)
        ensures
            store_contents(*final(self))
                == store_contents(*old(self)).restrict(key_view_set(keys@)),
    {
        self.inner.retain(|k, _v| key_vec_contains(keys, k));
    }

    /// Relies on `dashmap::DashMap::iter`: visits the entries of the live
    /// map and clones each visited pair out, so no entry lock outlives the
    /// call. The ensures states what holds of every outcome, however the
    /// traversal interleaves with the writer: a key routes to exactly one
    /// shard and each shard is traversed once under its lock, so no key
    /// appears twice; and each pair is a stored entry, placed there by
    /// [`SharedStore::insert`], whose `requires` admits only a value
    /// stored under its own identity.
    #[verifier::external_body]
    pub(crate) fn entries(&self) -> (r: Vec<(ObjectKey, CachedObject)>)
        ensures
            forall|i: int, j: int| 0 <= i < j < r@.len()
                ==> (#[trigger] r@[i]).0@ != (#[trigger] r@[j]).0@,
            forall|i: int| 0 <= i < r@.len()
                ==> (#[trigger] r@[i]).0@ == key_of(r@[i].1@),
    {
        self.inner.iter().map(|entry| (entry.key().clone(), entry.value().clone())).collect()
    }
}

} // verus!
