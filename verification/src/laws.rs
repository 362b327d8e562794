//! The laws of the cache, proved over the model of `crate::model`.
//!
//! Each public proof function states one behavioural law of event
//! application, for all store contents and all objects.

use vstd::prelude::*;
use crate::objects::{KeyView, ObjView, key_of};
use crate::model::{
    EventView, apply_event_spec, desired_keys, identity_keyed, insert_all, store_lookup,
};

verus! {

/// Law: after `Applied(o)`, a read of `o`'s identity yields `o`.
pub proof fn lemma_applied_then_get(m: Map<KeyView, ObjView>, o: ObjView)
    ensures
        store_lookup(apply_event_spec(m, EventView::Applied(o)), key_of(o)) == Option::Some(o),
{
}

/// Law: after `Deleted(o)`, a read of `o`'s identity yields nothing,
/// whether or not that key was present before.
pub proof fn lemma_deleted_then_get(m: Map<KeyView, ObjView>, o: ObjView)
    ensures
        store_lookup(apply_event_spec(m, EventView::Deleted(o)), key_of(o)) is None,
{
}

/// The last object of `objs` whose identity is `k`, if any: scanning from
/// the end, the first object whose key matches.
pub open spec fn last_matching(objs: Seq<ObjView>, k: KeyView) -> Option<ObjView>
    decreases objs.len(),
{
    if objs.len() == 0 {
        Option::None
    } else if key_of(objs.last()) == k {
        Option::Some(objs.last())
    } else {
        last_matching(objs.drop_last(), k)
    }
}

proof fn lemma_insert_all_lookup(m: Map<KeyView, ObjView>, objs: Seq<ObjView>, k: KeyView)
    ensures
        store_lookup(insert_all(m, objs), k) == (match last_matching(objs, k) {
            Option::Some(o) => Option::Some(o),
            Option::None => store_lookup(m, k),
        }),
    decreases objs.len(),
{
    if objs.len() == 0 {
    } else {
        lemma_insert_all_lookup(m, objs.drop_last(), k);
    }
}

proof fn lemma_last_matching_some(objs: Seq<ObjView>, k: KeyView)
    ensures
        desired_keys(objs).contains(k) <==> last_matching(objs, k) is Some,
    decreases objs.len(),
{
    if objs.len() == 0 {
    } else {
        lemma_last_matching_some(objs.drop_last(), k);
        if key_of(objs.last()) == k {
            assert(key_of(objs[objs.len() - 1]) == k);
        } else {
            if desired_keys(objs).contains(k) {
                let i = choose|i: int| 0 <= i < objs.len() && key_of(#[trigger] objs[i]) == k;
                assert(i < objs.len() - 1);
                assert(key_of(objs.drop_last()[i]) == k);
            }
            if desired_keys(objs.drop_last()).contains(k) {
                let i = choose|i: int|
                    0 <= i < objs.drop_last().len() && key_of(#[trigger] objs.drop_last()[i])
                        == k;
                assert(key_of(objs[i]) == k);
            }
        }
    }
}

/// Law: after `Restarted(objs)`, a read of a key the list does not name
/// yields nothing, and a read of the identity of any listed object yields
/// the last object of the list sharing that identity.
pub proof fn lemma_restarted_then_get(m: Map<KeyView, ObjView>, objs: Seq<ObjView>, k: KeyView)
    ensures
        desired_keys(objs).contains(k) ==> store_lookup(
            apply_event_spec(m, EventView::Restarted(objs)),
            k,
        ) == last_matching(objs, k),
        !desired_keys(objs).contains(k) ==> store_lookup(
            apply_event_spec(m, EventView::Restarted(objs)),
            k,
        ) is None,
        forall|i: int| 0 <= i < objs.len() ==> store_lookup(
            apply_event_spec(m, EventView::Restarted(objs)),
            key_of(#[trigger] objs[i]),
        ) == last_matching(objs, key_of(objs[i])),
{
    lemma_restarted_lookup(m, objs, k);
    assert forall|i: int| 0 <= i < objs.len() implies store_lookup(
        apply_event_spec(m, EventView::Restarted(objs)),
        key_of(#[trigger] objs[i]),
    ) == last_matching(objs, key_of(objs[i])) by {
        lemma_restarted_lookup(m, objs, key_of(objs[i]));
        assert(desired_keys(objs).contains(key_of(objs[i])));
    };
}

proof fn lemma_restarted_lookup(m: Map<KeyView, ObjView>, objs: Seq<ObjView>, k: KeyView)
    ensures
        desired_keys(objs).contains(k) ==> store_lookup(
            apply_event_spec(m, EventView::Restarted(objs)),
            k,
        ) == last_matching(objs, k),
        !desired_keys(objs).contains(k) ==> store_lookup(
            apply_event_spec(m, EventView::Restarted(objs)),
            k,
        ) is None,
{
    let base = m.restrict(desired_keys(objs));
    lemma_insert_all_lookup(base, objs, k);
    lemma_last_matching_some(objs, k);
    if !desired_keys(objs).contains(k) {
        assert(!base.contains_key(k));
    }
}

/// Law: applying `Applied(o)` twice in a row leaves the same store
/// contents as applying it once.
pub proof fn lemma_applied_idempotent(m: Map<KeyView, ObjView>, o: ObjView)
    ensures
        apply_event_spec(apply_event_spec(m, EventView::Applied(o)), EventView::Applied(o))
            == apply_event_spec(m, EventView::Applied(o)),
{
    assert(m.insert(key_of(o), o).insert(key_of(o), o) =~= m.insert(key_of(o), o));
}

proof fn lemma_insert_all_preserves_identity_keyed(m: Map<KeyView, ObjView>, objs: Seq<ObjView>)
    requires
        identity_keyed(m),
    ensures
        identity_keyed(insert_all(m, objs)),
    decreases objs.len(),
{
    if objs.len() == 0 {
    } else {
        lemma_insert_all_preserves_identity_keyed(m, objs.drop_last());
        let prev = insert_all(m, objs.drop_last());
        let o = objs.last();
        let m2 = prev.insert(key_of(o), o);
        assert forall|k: KeyView| #[trigger] m2.contains_key(k) implies key_of(m2[k]) == k by {
            if k != key_of(o) {
                assert(prev.contains_key(k));
            }
        };
    }
}

/// Law: event application keeps every entry under the identity of its own
/// value, so the store never holds an object under a foreign key.
pub proof fn lemma_apply_preserves_identity_keyed(m: Map<KeyView, ObjView>, e: EventView)
    requires
        identity_keyed(m),
    ensures
        identity_keyed(apply_event_spec(m, e)),
{
    match e {
        EventView::Applied(o) => {
            let m2 = m.insert(key_of(o), o);
            assert forall|k: KeyView| #[trigger] m2.contains_key(k) implies key_of(m2[k]) == k by {
                if k != key_of(o) {
                    assert(m.contains_key(k));
                }
            };
        },
        EventView::Deleted(o) => {
            let m2 = m.remove(key_of(o));
            assert forall|k: KeyView| #[trigger] m2.contains_key(k) implies key_of(m2[k]) == k by {
                assert(m.contains_key(k));
            };
        },
        EventView::Restarted(objs) => {
            let base = m.restrict(desired_keys(objs));
            assert forall|k: KeyView| #[trigger] base.contains_key(k) implies key_of(base[k])
                == k by {
                assert(m.contains_key(k));
            };
            lemma_insert_all_preserves_identity_keyed(base, objs);
        },
    }
}

} // verus!
