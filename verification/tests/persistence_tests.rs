use bw_scripting::persistence::store::{InMemoryStore, ScriptStateStore, ScriptState, sanitize_filename};
use bw_scripting::persistence::bindings::parse_key;

#[test]
fn test_in_memory_store_basic() {
    let mut store = InMemoryStore::new();

    // Save
    store.save("test", "key1", b"hello").unwrap();
    assert_eq!(store.entry_count(), 1);

    // Load
    let data = store.load("test", "key1").unwrap();
    assert_eq!(data, Some(b"hello".to_vec()));

    // Update
    store.save("test", "key1", b"world").unwrap();
    let data = store.load("test", "key1").unwrap();
    assert_eq!(data, Some(b"world".to_vec()));

    // Delete
    assert!(store.delete("test", "key1").unwrap());
    assert_eq!(store.load("test", "key1").unwrap(), None);
}

#[test]
fn test_in_memory_store_namespaces() {
    let mut store = InMemoryStore::new();

    store.save("ns1", "key1", b"a").unwrap();
    store.save("ns1", "key2", b"b").unwrap();
    store.save("ns2", "key1", b"c").unwrap();

    assert_eq!(store.namespace_count(), 2);

    let keys = store.list_keys("ns1").unwrap();
    assert_eq!(keys.len(), 2);

    let cleared = store.clear_namespace("ns1").unwrap();
    assert_eq!(cleared, 2);
    assert_eq!(store.list_keys("ns1").unwrap().len(), 0);
}

#[test]
fn test_in_memory_checkpoints() {
    let mut store = InMemoryStore::new();

    store.save("test", "key1", b"original").unwrap();
    store.checkpoint("cp1").unwrap();

    store.save("test", "key1", b"modified").unwrap();
    assert_eq!(store.load("test", "key1").unwrap(), Some(b"modified".to_vec()));

    store.restore_checkpoint("cp1").unwrap();
    assert_eq!(store.load("test", "key1").unwrap(), Some(b"original".to_vec()));
}

#[test]
fn test_sanitize_filename() {
    assert_eq!(sanitize_filename("normal"), "normal");
    assert_eq!(sanitize_filename("path/with/slashes"), "path_with_slashes");
    assert_eq!(sanitize_filename("file:name"), "file_name");
}

#[test]
fn test_parse_key() {
    assert_eq!(parse_key("nemesis:player123"), ("nemesis".to_string(), "player123".to_string()));
    assert_eq!(parse_key("simple_key"), ("default".to_string(), "simple_key".to_string()));
    assert_eq!(parse_key("a:b:c"), ("a".to_string(), "b:c".to_string()));
}

#[test]
fn metadata_versions_and_exists() {
    let mut store = InMemoryStore::new();
    store.save("ns", "k", b"1").unwrap();
    let first = store.get_metadata("ns", "k").unwrap().unwrap();
    assert_eq!(first.version, 1);
    assert_eq!(first.namespace, "ns");
    store.save("ns", "k", b"2").unwrap();
    let second = store.get_metadata("ns", "k").unwrap().unwrap();
    assert_eq!(second.version, 2);
    assert_eq!(second.created_at, first.created_at);
    assert!(store.key_exists("ns", "k").unwrap());
    assert!(!store.key_exists("ns", "other").unwrap());
    assert!(store.get_metadata("nope", "k").unwrap().is_none());
    assert!(!store.delete("nope", "k").unwrap());
}

#[test]
fn checkpoint_listing_and_deletion() {
    let mut store = InMemoryStore::default();
    store.checkpoint("a").unwrap();
    store.checkpoint("b").unwrap();
    assert_eq!(store.list_checkpoints().unwrap(), vec!["a".to_string(), "b".to_string()]);
    assert!(store.delete_checkpoint("a").unwrap());
    assert!(!store.delete_checkpoint("a").unwrap());
    assert!(!store.restore_checkpoint("a").unwrap());
    assert_eq!(store.clear_namespace("none").unwrap(), 0);
}

#[test]
fn script_state_update_bumps_version() {
    let mut st = ScriptState::new("ns", "k", vec![1, 2]);
    assert_eq!(st.version, 1);
    st.update(vec![3]);
    assert_eq!(st.version, 2);
    assert_eq!(st.data, vec![3]);
}
