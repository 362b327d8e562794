//! The writer and reader handles of the cache.
//!
//! A [`Writer`] is the sole mutator of one shared backing map; it applies
//! watch events one at a time and can mint any number of read-only
//! [`Store`] handles over the same map. All mutation contracts are stated
//! against the model of [`crate::model`].

use vstd::prelude::*;
use crate::backing::{SharedStore, empty_contents, new_shared_store, store_contents};
use crate::laws::lemma_apply_preserves_identity_keyed;
use crate::model::{EventView, apply_event_spec, desired_keys, identity_keyed, insert_all, views_of};
use crate::objects::{CachedObject, KeyView, ObjView, ObjectKey, key_of, key_view_set};

verus! {

/// One watch event from the external source: an incremental apply or
/// delete of a single object, or a full-resync snapshot listing the
/// complete current set of objects.
pub enum Event {
    Applied(CachedObject),
    Deleted(CachedObject),
    Restarted(Vec<CachedObject>),
}

impl View for Event {
    type V = EventView;

    open spec fn view(&self) -> EventView {
        match self {
            Event::Applied(o) => EventView::Applied(o@),
            Event::Deleted(o) => EventView::Deleted(o@),
            Event::Restarted(objs) => EventView::Restarted(views_of(objs@)),
        }
    }
}

/// The writable handle of the cache.
///
/// Exactly one `Writer` must drive a given backing map: minting a second
/// independent mutator for the same map corrupts the full-resync
/// semantics, since a `Restarted` from one clobbers what the other just
/// inserted. This is a documented precondition of the design, not a
/// runtime check; the only way to obtain further handles on the same map
/// is [`Writer::as_reader`], which hands out read-only ones.
pub struct Writer {
    store: SharedStore,
}

impl View for Writer {
    type V = Map<KeyView, ObjView>;

    closed spec fn view(&self) -> Map<KeyView, ObjView> {
        store_contents(self.store)
    }
}

/// A read-only handle over the same backing map as the `Writer` that
/// minted it.
///
/// Cloning produces a new reference to the same live map; every handle
/// observes the same evolving state. It cannot be constructed except
/// through [`Writer::as_reader`], which keeps the single-writer discipline
/// structural.
///
/// Because the map keeps evolving under the writer, what a read through
/// this handle returns is a point-in-time observation, not a function of
/// the handle: the read operations carry only the contracts that hold of
/// every interleaving with the writer, and their full sequential behaviour
/// is pinned instead by the writer's [`Writer::apply_watcher_event`]
/// contract, the laws of [`crate::laws`], and the runtime tests. The
/// handle's mathematical view is its entries at the moment the handle was
/// minted; [`Writer::as_reader`] states that it then equals the writer's.
pub struct Store {
    store: SharedStore,
}

impl View for Store {
    type V = Map<KeyView, ObjView>;

    closed spec fn view(&self) -> Map<KeyView, ObjView> {
        store_contents(self.store)
    }
}

impl Writer {
    /// Every entry of the store stands under the identity of its value.
    pub open spec fn wf(&self) -> bool {
        identity_keyed(self@)
    }

    /// A writer over a fresh, empty backing map.
    pub fn new() -> (w: Writer)
        ensures
            w@ == empty_contents(),
            w.wf(),
    {
        Writer { store: new_shared_store(0) }
    }

    /// Return a read handle to the store.
    ///
    /// Multiple read handles may be obtained, by either calling
    /// `as_reader` multiple times, or by calling `Store::clone`
    /// afterwards; all of them observe the same evolving state, including
    /// every event applied before or after this call. The ensures states
    /// what is a function of the handle values: at the moment of minting,
    /// the reader holds exactly the writer's entries. Later observations
    /// move with the live map and are specified only by the read
    /// operations' own contracts.
    #[must_use]
    pub fn as_reader(&self) -> (r: Store)
        ensures
            r@ == self@,
    {
        Store { store: self.store.share_current() }
    }

    /// Applies a single watch event to the store.
    ///
    /// `Applied` fully replaces the entry under the object's identity;
    /// `Deleted` removes it, a no-op if absent; `Restarted` first purges
    /// every entry whose key the snapshot no longer names, then inserts
    /// every listed object in list order. The two phases deliberately
    /// never empty the store of objects that remain valid, at the cost of
    /// a concurrent reader possibly observing a state between the phases.
    pub fn apply_watcher_event(&mut self, event: &Event)
        requires
            old(self).wf(),
        ensures
            final(self)@ == apply_event_spec(old(self)@, event@),
            final(self).wf(),
    {
        match event {
            Event::Applied(obj) => {
                let key = obj.identity();
                let value = obj.clone();
                self.store.insert(key, value);
            },
            Event::Deleted(obj) => {
                let key = obj.identity();
                self.store.remove(&key);
            },
            Event::Restarted(objs) => {
                let ghost ovs: Seq<ObjView> = views_of(objs@);
                let mut keys: Vec<ObjectKey> = Vec::new();
                let mut i: usize = 0;
                while i < objs.len()
                    invariant
                        i <= objs.len(),
                        keys@.len() == i as int,
                        forall|n: int| 0 <= n < i ==> (#[trigger] keys@[n])@ == key_of(ovs[n]),
                        ovs == views_of(objs@),
                    decreases objs.len() - i,
                {
                    let k = objs[i].identity();
                    keys.push(k);
                    i += 1;
                }
                proof {
                    assert forall|kv: KeyView| key_view_set(keys@).contains(kv) implies
                        desired_keys(ovs).contains(kv) by {
                        let n = choose|n: int|
                            0 <= n < keys@.len() && (#[trigger] keys@[n])@ == kv;
                        assert(key_of(ovs[n]) == kv);
                    };
                    assert forall|kv: KeyView| desired_keys(ovs).contains(kv) implies
                        key_view_set(keys@).contains(kv) by {
                        let n = choose|n: int|
                            0 <= n < ovs.len() && key_of(#[trigger] ovs[n]) == kv;
                        assert((keys@[n])@ == kv);
                    };
                    assert(key_view_set(keys@) =~= desired_keys(ovs));
                }
                self.store.retain_keys(&keys);
                let ghost base: Map<KeyView, ObjView> = store_contents(self.store);
                let mut j: usize = 0;
                while j < objs.len()
                    invariant
                        j <= objs.len(),
                        store_contents(self.store) == insert_all(base, ovs.take(j as int)),
                        ovs == views_of(objs@),
                    decreases objs.len() - j,
                {
                    let key = objs[j].identity();
                    let value = objs[j].clone();
                    self.store.insert(key, value);
                    proof {
                        assert(ovs.take(j + 1).drop_last() =~= ovs.take(j as int));
                        assert(ovs.take(j + 1).last() == ovs[j as int]);
                    }
                    j += 1;
                }
                proof {
                    assert(ovs.take(objs@.len() as int) =~= ovs);
                }
            },
        }
        proof {
            lemma_apply_preserves_identity_keyed(old(self)@, event@);
        }
    }
}

impl Default for Writer {
    /// A writer over a fresh, empty backing map.
    fn default() -> (w: Writer)
        ensures
            w@ == empty_contents(),
            w.wf(),
    {
        Writer::new()
    }
}

impl Clone for Store {
    /// The new handle observes the same live, evolving state as this one.
    /// Unlike [`Writer::as_reader`] this carries no ensures: the handle
    /// being cloned may itself be stale relative to the live map, so no
    /// true tie between the two handles' named contents exists; the
    /// sharing is documented behaviour, witnessed by the runtime tests.
    fn clone(&self) -> Self {
        Store { store: self.store.share() }
    }
}

impl Store {
    /// Retrieve a copy of the entry under `key`, if it is in the cache at
    /// the instant of the read.
    ///
    /// The copy is taken and the per-entry access released immediately,
    /// so this call never blocks the writer beyond the instant of the
    /// copy. The cache may be stale: deleted objects may still be here
    /// and new objects may not yet be. Which instant is observed depends
    /// on how the call interleaves with the writer, so the ensures states
    /// only what holds of every outcome: any returned object stands under
    /// its own identity, which is the queried key. Once the writer is
    /// quiescent, the read agrees with the writer's verified contents, as
    /// the tests witness.
    #[must_use]
    pub fn get(&self, key: &ObjectKey) -> (r: Option<CachedObject>)
        ensures
            r matches Option::Some(o) ==> key_of(o@) == key@,
    {
        self.store.lookup(key)
    }

    /// A full snapshot of the current values: one copy per observed key,
    /// no two of which share an identity, in no particular order.
    ///
    /// The snapshot is not atomic across the whole traversal: concurrent
    /// mutation during the call may leave a mix of pre- and post-mutation
    /// entries, but each copied value was valid for its key at some
    /// instant of the call, and no key is visited twice — hence no two
    /// returned values share an identity, whatever the interleaving.
    pub fn state(&self) -> (r: Vec<CachedObject>)
        ensures
            forall|n1: int, n2: int| 0 <= n1 < n2 < r@.len() ==> key_of((#[trigger] r@[n1])@)
                != key_of((#[trigger] r@[n2])@),
    {
        let pairs = self.store.entries();
        let mut out: Vec<CachedObject> = Vec::new();
        let mut i: usize = 0;
        while i < pairs.len()
            invariant
                i <= pairs.len(),
                out@.len() == i as int,
                forall|n: int| 0 <= n < i ==> out@[n] == (#[trigger] pairs@[n]).1,
                forall|n1: int, n2: int| 0 <= n1 < n2 < pairs@.len() ==> (#[trigger] pairs@[n1]).0@
                    != (#[trigger] pairs@[n2]).0@,
                forall|n: int| 0 <= n < pairs@.len() ==> (#[trigger] pairs@[n]).0@ == key_of(
                    pairs@[n].1@,
                ),
            decreases pairs.len() - i,
        {
            let value = pairs[i].1.clone();
            out.push(value);
            i += 1;
        }
        proof {
            assert forall|n: int| 0 <= n < out@.len() implies key_of((#[trigger] out@[n])@)
                == pairs@[n].0@ by {
                assert(out@[n] == pairs@[n].1);
            };
        }
        out
    }

    /// The current key/value pairs of the store, collected at call time:
    /// each observed key at most once, paired with the value it held —
    /// which stands under that very key as its identity — at the instant
    /// it was visited.
    ///
    /// Unlike a point read this visits every entry; like [`Store::state`]
    /// it is only weakly consistent under concurrent mutation. A fresh
    /// traversal is obtained by calling `iter` again.
    pub fn iter(&self) -> (r: Vec<(ObjectKey, CachedObject)>)
        ensures
            forall|n1: int, n2: int| 0 <= n1 < n2 < r@.len() ==> (#[trigger] r@[n1]).0@
                != (#[trigger] r@[n2]).0@,
            forall|n: int| 0 <= n < r@.len() ==> (#[trigger] r@[n]).0@ == key_of(r@[n].1@),
    {
        self.store.entries()
    }
}

} // verus!
