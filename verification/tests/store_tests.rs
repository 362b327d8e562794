use reflector_store::objects::{CachedObject, ObjectKey};
use reflector_store::store::{Event, Store, Writer};

fn obj(namespace: Option<&str>, name: &str, payload: &str) -> CachedObject {
    CachedObject {
        kind: "ConfigMap".to_string(),
        namespace: namespace.map(|s| s.to_string()),
        name: name.to_string(),
        payload: payload.to_string(),
    }
}

fn key(namespace: Option<&str>, name: &str) -> ObjectKey {
    ObjectKey {
        kind: "ConfigMap".to_string(),
        namespace: namespace.map(|s| s.to_string()),
        name: name.to_string(),
    }
}

fn state_of(reader: &Store) -> Vec<CachedObject> {
    reader.state()
}

fn assert_state_set_equals(reader: &Store, expected: &[CachedObject]) {
    let got = state_of(reader);
    assert_eq!(got.len(), expected.len());
    for e in expected {
        assert!(got.contains(e), "state is missing {:?}", e);
    }
}

#[test]
fn scenario_a_apply_then_get() {
    let mut writer = Writer::new();
    let reader = writer.as_reader();
    writer.apply_watcher_event(&Event::Applied(obj(None, "1", "v1")));
    assert_eq!(reader.get(&key(None, "1")), Some(obj(None, "1", "v1")));
}

#[test]
fn scenario_b_delete_then_get() {
    let mut writer = Writer::new();
    let reader = writer.as_reader();
    writer.apply_watcher_event(&Event::Applied(obj(None, "1", "v1")));
    writer.apply_watcher_event(&Event::Deleted(obj(None, "1", "v1")));
    assert_eq!(reader.get(&key(None, "1")), None);
}

#[test]
fn delete_absent_is_noop() {
    let mut writer = Writer::new();
    let reader = writer.as_reader();
    writer.apply_watcher_event(&Event::Deleted(obj(None, "ghostly", "x")));
    assert_eq!(reader.get(&key(None, "ghostly")), None);
    assert_eq!(reader.state().len(), 0);
}

#[test]
fn delete_matches_on_identity_not_payload() {
    let mut writer = Writer::new();
    let reader = writer.as_reader();
    writer.apply_watcher_event(&Event::Applied(obj(None, "1", "v1")));
    writer.apply_watcher_event(&Event::Deleted(obj(None, "1", "some other payload")));
    assert_eq!(reader.get(&key(None, "1")), None);
}

#[test]
fn scenario_c_restart() {
    let mut writer = Writer::new();
    let reader = writer.as_reader();
    writer.apply_watcher_event(&Event::Applied(obj(None, "1", "v1")));
    writer.apply_watcher_event(&Event::Applied(obj(None, "2", "v2")));
    writer.apply_watcher_event(&Event::Restarted(vec![
        obj(None, "2", "v2b"),
        obj(None, "3", "v3"),
    ]));
    assert_state_set_equals(&reader, &[obj(None, "2", "v2b"), obj(None, "3", "v3")]);
    assert_eq!(reader.get(&key(None, "1")), None);
    assert_eq!(reader.get(&key(None, "2")), Some(obj(None, "2", "v2b")));
    assert_eq!(reader.get(&key(None, "3")), Some(obj(None, "3", "v3")));
}

#[test]
fn restart_duplicate_keys_last_wins() {
    let mut writer = Writer::new();
    let reader = writer.as_reader();
    writer.apply_watcher_event(&Event::Restarted(vec![
        obj(None, "2", "first"),
        obj(None, "2", "second"),
    ]));
    assert_eq!(reader.get(&key(None, "2")), Some(obj(None, "2", "second")));
    assert_eq!(reader.state().len(), 1);
}

#[test]
fn restart_with_empty_list_clears_store() {
    let mut writer = Writer::new();
    let reader = writer.as_reader();
    writer.apply_watcher_event(&Event::Applied(obj(None, "1", "v1")));
    writer.apply_watcher_event(&Event::Applied(obj(Some("ns"), "2", "v2")));
    writer.apply_watcher_event(&Event::Restarted(Vec::new()));
    assert_eq!(reader.state().len(), 0);
    assert_eq!(reader.get(&key(None, "1")), None);
    assert_eq!(reader.get(&key(Some("ns"), "2")), None);
}

#[test]
fn restart_keeps_surviving_objects() {
    let mut writer = Writer::new();
    let reader = writer.as_reader();
    writer.apply_watcher_event(&Event::Applied(obj(None, "keep", "old")));
    writer.apply_watcher_event(&Event::Applied(obj(None, "drop", "old")));
    writer.apply_watcher_event(&Event::Restarted(vec![obj(None, "keep", "new")]));
    assert_eq!(reader.get(&key(None, "keep")), Some(obj(None, "keep", "new")));
    assert_eq!(reader.get(&key(None, "drop")), None);
}

#[test]
fn state_has_distinct_keys_and_counts_them() {
    let mut writer = Writer::new();
    let reader = writer.as_reader();
    writer.apply_watcher_event(&Event::Applied(obj(None, "1", "v1")));
    writer.apply_watcher_event(&Event::Applied(obj(None, "1", "v1b")));
    writer.apply_watcher_event(&Event::Applied(obj(Some("ns"), "1", "v2")));
    writer.apply_watcher_event(&Event::Applied(obj(Some("ns"), "2", "v3")));
    let snapshot = reader.state();
    assert_eq!(snapshot.len(), 3);
    for (i, a) in snapshot.iter().enumerate() {
        for b in snapshot.iter().skip(i + 1) {
            assert!(
                (a.kind.clone(), a.namespace.clone(), a.name.clone())
                    != (b.kind.clone(), b.namespace.clone(), b.name.clone()),
                "two snapshot entries share a key",
            );
        }
    }
}

#[test]
fn applied_twice_is_idempotent() {
    let mut once = Writer::new();
    let once_reader = once.as_reader();
    once.apply_watcher_event(&Event::Applied(obj(None, "1", "v1")));

    let mut twice = Writer::new();
    let twice_reader = twice.as_reader();
    twice.apply_watcher_event(&Event::Applied(obj(None, "1", "v1")));
    twice.apply_watcher_event(&Event::Applied(obj(None, "1", "v1")));

    let expected = [obj(None, "1", "v1")];
    assert_state_set_equals(&once_reader, &expected);
    assert_state_set_equals(&twice_reader, &expected);
}

#[test]
fn apply_overwrites_payload_under_same_identity() {
    let mut writer = Writer::new();
    let reader = writer.as_reader();
    writer.apply_watcher_event(&Event::Applied(obj(Some("ns"), "cfg", "v1")));
    writer.apply_watcher_event(&Event::Applied(obj(Some("ns"), "cfg", "v2")));
    assert_eq!(reader.get(&key(Some("ns"), "cfg")), Some(obj(Some("ns"), "cfg", "v2")));
    assert_eq!(reader.state().len(), 1);
}

#[test]
fn namespace_distinguishes_identities() {
    let mut writer = Writer::new();
    let reader = writer.as_reader();
    writer.apply_watcher_event(&Event::Applied(obj(None, "same", "a")));
    writer.apply_watcher_event(&Event::Applied(obj(Some("ns"), "same", "b")));
    assert_eq!(reader.get(&key(None, "same")), Some(obj(None, "same", "a")));
    assert_eq!(reader.get(&key(Some("ns"), "same")), Some(obj(Some("ns"), "same", "b")));
    assert_eq!(reader.state().len(), 2);
}

#[test]
fn scenario_d_clones_agree_after_quiescent_mutation() {
    let mut writer = Writer::new();
    let before = writer.as_reader();
    writer.apply_watcher_event(&Event::Applied(obj(None, "1", "v1")));
    let after = writer.as_reader();
    let cloned = before.clone();
    for k in [key(None, "1"), key(None, "2")] {
        assert_eq!(before.get(&k), after.get(&k));
        assert_eq!(before.get(&k), cloned.get(&k));
    }
    writer.apply_watcher_event(&Event::Deleted(obj(None, "1", "v1")));
    for k in [key(None, "1"), key(None, "2")] {
        assert_eq!(before.get(&k), after.get(&k));
        assert_eq!(before.get(&k), cloned.get(&k));
    }
}

#[test]
fn iter_yields_every_pair_once() {
    let mut writer = Writer::new();
    let reader = writer.as_reader();
    writer.apply_watcher_event(&Event::Applied(obj(None, "1", "v1")));
    writer.apply_watcher_event(&Event::Applied(obj(Some("ns"), "2", "v2")));
    let pairs = reader.iter();
    assert_eq!(pairs.len(), 2);
    for (k, v) in &pairs {
        assert_eq!(reader.get(k), Some(v.clone()));
        assert_eq!((&v.kind, &v.namespace, &v.name), (&k.kind, &k.namespace, &k.name));
    }
    assert!(pairs.iter().any(|(k, _)| *k == key(None, "1")));
    assert!(pairs.iter().any(|(k, _)| *k == key(Some("ns"), "2")));
}

#[test]
fn identity_depends_only_on_identity_attributes() {
    let a = obj(Some("ns"), "thing", "payload one");
    let b = obj(Some("ns"), "thing", "payload two");
    assert_eq!(a.identity(), b.identity());
    let c = obj(None, "thing", "payload one");
    assert_ne!(a.identity(), c.identity());
}
