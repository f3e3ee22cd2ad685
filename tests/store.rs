use spaceapi_server::store::{DataStore, DataStoreError, MemoryStore};

#[test]
fn hash_map_store_roundtrip() {
    let mut store = MemoryStore::new();
    store.store("key", "value").unwrap();
    let result = store.retrieve("key").unwrap();
    assert_eq!(result, "value");
    store.delete("key").unwrap();
}

#[test]
#[should_panic]
fn hash_map_store_nonexistant() {
    let store = MemoryStore::new();
    store.retrieve("nonexistant").unwrap();
}

#[test]
fn memory_store_missing_key_is_not_found() {
    let store = MemoryStore::new();
    assert_eq!(store.retrieve("nothing").unwrap_err(), DataStoreError::NotFound);
}

#[test]
fn memory_store_overwrites_and_deletes() {
    let mut store = MemoryStore::new();
    store.store("a", "1").unwrap();
    store.store("b", "2").unwrap();
    store.store("a", "3").unwrap();
    assert_eq!(store.retrieve("a").unwrap(), "3");
    assert_eq!(store.retrieve("b").unwrap(), "2");
    store.delete("a").unwrap();
    assert_eq!(store.retrieve("a").unwrap_err(), DataStoreError::NotFound);
    assert_eq!(store.retrieve("b").unwrap(), "2");
    store.delete("missing").unwrap();
    store.store_expiring("c", "4", 10).unwrap();
    assert_eq!(store.retrieve("c").unwrap(), "4");
}
