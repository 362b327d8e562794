//! The mathematical model of the cache: watch events as ghost values and
//! the effect of applying one event to a map of entries.

use vstd::prelude::*;
use crate::objects::{CachedObject, KeyView, ObjView, key_of};

verus! {

/// A watch event, as a ghost value: an incremental apply or delete of one
/// object, or a full-resync snapshot carrying the complete current list.
pub ghost enum EventView {
    Applied(ObjView),
    Deleted(ObjView),
    Restarted(Seq<ObjView>),
}

/// The views of the objects of a sequence, in order.
pub open spec fn views_of(objs: Seq<CachedObject>) -> Seq<ObjView> {
    objs.map_values(|o: CachedObject| o@)
}

/// What a point read of `m` at key `k` yields: the entry if one is present.
pub open spec fn store_lookup(m: Map<KeyView, ObjView>, k: KeyView) -> Option<ObjView> {
    if m.contains_key(k) {
        Option::Some(m[k])
    } else {
        Option::None
    }
}

/// The set of keys that a resync list declares still existing: the
/// identities of its objects.
pub open spec fn desired_keys(objs: Seq<ObjView>) -> Set<KeyView> {
    Set::new(|k: KeyView| exists|i: int| 0 <= i < objs.len() && key_of(#[trigger] objs[i]) == k)
}

/// `m` after inserting every object of `objs` under its identity, in list
/// order, so that the last object with a given key wins.
pub open spec fn insert_all(m: Map<KeyView, ObjView>, objs: Seq<ObjView>) -> Map<KeyView, ObjView>
    decreases objs.len(),
{
    if objs.len() == 0 {
        m
    } else {
        insert_all(m, objs.drop_last()).insert(key_of(objs.last()), objs.last())
    }
}

/// The store contents after one watch event is applied to contents `m`:
/// - `Applied(o)` inserts or overwrites `o` under its identity;
/// - `Deleted(o)` removes the entry under `o`'s identity, a no-op if absent;
/// - `Restarted(objs)` first purges every key the list no longer names, then
///   inserts every listed object in list order (last occurrence wins).
pub open spec fn apply_event_spec(m: Map<KeyView, ObjView>, e: EventView) -> Map<
    KeyView,
    ObjView,
> {
    match e {
        EventView::Applied(o) => m.insert(key_of(o), o),
        EventView::Deleted(o) => m.remove(key_of(o)),
        EventView::Restarted(objs) => insert_all(m.restrict(desired_keys(objs)), objs),
    }
}

/// Every entry of `m` stands under the identity of its own value: the
/// invariant the writer maintains, since it only ever inserts an object
/// under that object's identity.
pub open spec fn identity_keyed(m: Map<KeyView, ObjView>) -> bool {
    forall|k: KeyView| #[trigger] m.contains_key(k) ==> key_of(m[k]) == k
}

} // verus!
