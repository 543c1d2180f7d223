use bw_scripting::data::DataStore;
use bw_scripting::maps::StrMap;

fn ships() -> StrMap<i64> {
    let mut m = StrMap::new();
    m.insert("corvette".to_string(), 1);
    m.insert("frigate".to_string(), 2);
    m
}

#[test]
fn data_is_read_by_category_and_key() {
    let mut store: DataStore<i64> = DataStore::new();
    assert!(store.get("ships", "corvette").is_none());
    store.set_category("ships".to_string(), ships());
    assert_eq!(store.get("ships", "frigate"), Some(&2));
    assert!(store.get("ships", "cruiser").is_none());
    assert!(store.get("cargo", "ore").is_none());
    assert_eq!(store.list_keys("ships"), vec!["corvette".to_string(), "frigate".to_string()]);
    assert!(store.list_keys("cargo").is_empty());
    assert_eq!(store.get_category("ships").unwrap().len(), 2);
}

#[test]
fn setting_a_category_replaces_it_and_clear_drops_all() {
    let mut store: DataStore<i64> = DataStore::new();
    store.set_category("ships".to_string(), ships());
    let mut only = StrMap::new();
    only.insert("shuttle".to_string(), 9);
    store.set_category("ships".to_string(), only);
    assert_eq!(store.list_keys("ships"), vec!["shuttle".to_string()]);
    assert!(store.get("ships", "corvette").is_none());
    store.clear();
    assert!(store.get_category("ships").is_none());
}
