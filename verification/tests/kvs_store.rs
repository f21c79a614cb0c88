use pipeless_ai::kvs::namespaced_key;
use pipeless_ai::kvs::pipeline_prefix;
use pipeless_ai::kvs::MemoryStore;

#[test]
fn set_get_and_miss() {
    let mut store = MemoryStore::new();
    assert_eq!(store.get("missing"), "");
    store.set("k", "v1");
    assert_eq!(store.get("k"), "v1");
    store.set("k", "v2");
    assert_eq!(store.get("k"), "v2");
    store.set("other", "x");
    assert_eq!(store.get("k"), "v2");
    assert_eq!(store.get("other"), "x");
}

#[test]
fn keys_are_namespaced_per_pipeline_and_stage() {
    assert_eq!(namespaced_key("12", "stage", "k"), "12:stage:k");
    assert_eq!(pipeline_prefix("12"), "12:");
    assert!(namespaced_key("12", "stage", "k").starts_with(&pipeline_prefix("12")));
    assert!(!namespaced_key("34", "stage", "k").starts_with(&pipeline_prefix("12")));
}

#[test]
fn kv_store_scoping_between_streams() {
    // Two streams, the same stage, the same user key: each observes only
    // its own value.
    let mut store = MemoryStore::new();
    let key_a = namespaced_key("1", "s", "k");
    let key_b = namespaced_key("2", "s", "k");
    store.set(&key_a, "va");
    store.set(&key_b, "vb");
    assert_eq!(store.get(&key_a), "va");
    assert_eq!(store.get(&key_b), "vb");

    // After one stream terminates, its keys are purged; the other stream's
    // keys survive.
    store.clean(&pipeline_prefix("1"));
    assert_eq!(store.get(&key_a), "");
    assert_eq!(store.get(&key_b), "vb");
}

#[test]
fn clean_removes_whole_prefix() {
    let mut store = MemoryStore::new();
    store.set("7:a:x", "1");
    store.set("7:b:y", "2");
    store.set("70:a:x", "3");
    store.clean("7:");
    assert_eq!(store.get("7:a:x"), "");
    assert_eq!(store.get("7:b:y"), "");
    // "70:a:x" does not start with "7:".
    assert_eq!(store.get("70:a:x"), "3");
}
