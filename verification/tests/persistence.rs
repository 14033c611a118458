use leptos_store::keyed_map::ByteMap;
use leptos_store::persistence::{
    decode_stored, encode_stored, IndexedDbAdapter, LocalStorageAdapter, MemoryAdapter, PersistConfig, PersistError,
    PersistedState, PersistenceAdapter, PersistentStore, presence_of, SaveSchedule, ServerSyncAdapter, SessionStorageAdapter, StorageCapacity,
    StorageType,
};
use leptos_store::store::{Store, StoreId};

#[derive(Clone, Debug, Default, PartialEq)]
struct TestState {
    count: i32,
}

#[derive(Clone)]
struct TestStore {
    state: TestState,
}

impl Store for TestStore {
    type State = TestState;
    fn state(&self) -> TestState {
        self.state.clone()
    }
    fn id(&self) -> StoreId {
        StoreId::new(1)
    }
    fn name(&self) -> &'static str {
        "TestStore"
    }
}

#[test]
fn test_persist_error_display() {
    assert!(PersistError::Serialization("test".to_string()).message().contains("Serialization"));
    assert!(PersistError::QuotaExceeded.message().contains("quota"));
    assert!(PersistError::VersionMismatch { expected: 2, found: 1 }.message().contains("expected 2"));
}

#[test]
fn test_storage_type_display() {
    assert_eq!(StorageType::Memory.display(), "Memory");
    assert_eq!(StorageType::LocalStorage.display(), "LocalStorage");
    assert_eq!(StorageType::IndexedDb.display(), "IndexedDB");
}

#[test]
fn test_memory_adapter() {
    let adapter = MemoryAdapter::new();
    assert!(adapter.is_empty());
    assert_eq!(adapter.storage_type(), StorageType::Memory);
}

#[test]
fn test_memory_adapter_operations() {
    let adapter = MemoryAdapter::new();

    adapter.save("key1", b"hello").unwrap();
    assert_eq!(adapter.len(), 1);

    let data = adapter.load("key1").unwrap();
    assert_eq!(data, Some(b"hello".to_vec()));

    let data = adapter.load("key2").unwrap();
    assert!(data.is_none());

    adapter.remove("key1").unwrap();
    assert!(adapter.is_empty());

    adapter.save("a", b"1").unwrap();
    adapter.save("b", b"2").unwrap();
    let keys = adapter.keys().unwrap();
    assert_eq!(keys.len(), 2);

    adapter.clear().unwrap();
    assert!(adapter.is_empty());
}

#[test]
fn test_persist_config() {
    let config = PersistConfig::new("my_store");
    assert_eq!(config.key, "my_store");
    assert_eq!(config.full_key(), "leptos_store_my_store");
}

#[test]
fn test_storage_capacity() {
    let unknown = StorageCapacity::unknown();
    assert!(unknown.total.is_none());

    let known = StorageCapacity::known(1000, 300);
    assert_eq!(known.total, Some(1000));
    assert_eq!(known.used, Some(300));
    assert_eq!(known.available, Some(700));
}

#[test]
fn test_persistent_store_config() {
    let store = TestStore { state: TestState::default() };

    let persistent = PersistentStore::new(store, MemoryAdapter::new())
        .with_key("test")
        .with_debounce(500)
        .with_version(2)
        .with_auto_save(false);

    assert_eq!(persistent.config().key, "test");
    assert_eq!(persistent.config().debounce_ms, 500);
    assert_eq!(persistent.config().version, 2);
    assert!(!persistent.config().auto_save);
}

#[test]
fn memory_adapter_overwrites_and_shares_between_clones() {
    let a = MemoryAdapter::new();
    let b = a.clone();
    a.save("k", b"one").unwrap();
    b.save("k", b"two").unwrap();
    assert_eq!(a.load("k").unwrap(), Some(b"two".to_vec()));
    assert_eq!(a.len(), 1);
    let snap = a.snapshot();
    assert_eq!(snap.get("k"), Some(&b"two".to_vec()));
}

#[test]
fn memory_adapter_with_data() {
    let mut data = ByteMap::new();
    data.insert("x".to_string(), vec![1, 2, 3]);
    let a = MemoryAdapter::with_data(data);
    assert_eq!(a.load("x").unwrap(), Some(vec![1, 2, 3]));
}

#[test]
fn storage_capacity_saturates() {
    let over = StorageCapacity::known(100, 300);
    assert_eq!(over.available, Some(0));
}

#[test]
fn persistent_store_round_trip_and_version_check() {
    let store = TestStore { state: TestState { count: 4 } };
    let p = PersistentStore::new(store, MemoryAdapter::new()).with_key("counter").with_version(3);
    assert_eq!(p.storage_key(), "leptos_store_counter");
    assert_eq!(p.has_saved_state(), Ok(false));
    assert_eq!(p.load_bytes(), Ok(None));

    p.save_encoded(Ok(b"{\"count\":4}".to_vec())).unwrap();
    assert_eq!(p.has_saved_state(), Ok(true));
    assert_eq!(p.load_bytes(), Ok(Some(b"{\"count\":4}".to_vec())));
    assert_eq!(p.adapter().load("leptos_store_counter").unwrap(), Some(b"{\"count\":4}".to_vec()));

    assert_eq!(
        p.save_encoded(Err("bad".to_string())),
        Err(PersistError::Serialization("bad".to_string()))
    );

    let ok = p.finish_load(Some(Ok(PersistedState { state: TestState { count: 4 }, version: 3, saved_at: 1 })));
    assert_eq!(ok, Ok(Some(TestState { count: 4 })));
    let old = p.finish_load(Some(Ok(PersistedState { state: TestState { count: 4 }, version: 1, saved_at: 1 })));
    assert_eq!(old, Err(PersistError::VersionMismatch { expected: 3, found: 1 }));
    assert_eq!(p.finish_load(None), Ok(None));
    assert_eq!(
        p.finish_load(Some(Err("eof".to_string()))),
        Err(PersistError::Deserialization("eof".to_string()))
    );

    let snap = p.snapshot();
    assert_eq!(snap.version, 3);
    assert_eq!(snap.state, TestState { count: 4 });

    p.remove().unwrap();
    assert_eq!(p.has_saved_state(), Ok(false));
}

#[test]
fn persist_error_messages() {
    assert_eq!(
        PersistError::VersionMismatch { expected: 2, found: 1 }.message(),
        "Version mismatch: expected 2, found 1"
    );
    assert_eq!(PersistError::QuotaExceeded.message(), "Storage quota exceeded");
    assert_eq!(PersistError::NotFound("k".to_string()).message(), "Key not found: k");
}

#[test]
fn browser_adapters_outside_browser() {
    let local = LocalStorageAdapter::new();
    assert!(!local.is_available());
    assert_eq!(local.save("k", b"v"), Err(PersistError::NotAvailable("Not in browser".to_string())));
    assert_eq!(local.storage_type(), StorageType::LocalStorage);
    let session = SessionStorageAdapter::new();
    assert_eq!(session.load("k"), Err(PersistError::NotAvailable("Not in browser".to_string())));
    let idb = IndexedDbAdapter::new("db").with_store_name("s");
    assert_eq!(idb.remove("k"), Err(PersistError::NotAvailable("IndexedDB not yet implemented".to_string())));
    let server = ServerSyncAdapter::new("https://example.com");
    assert_eq!(server.load("k"), Err(PersistError::NotAvailable("Server sync not yet implemented".to_string())));
}

#[test]
fn stored_text_is_base64() {
    assert_eq!(encode_stored(b"hello"), "aGVsbG8=");
    assert_eq!(decode_stored("aGVsbG8="), Ok(b"hello".to_vec()));
    assert!(matches!(decode_stored("%%%"), Err(PersistError::Deserialization(_))));
}

#[test]
fn presence_of_load_results() {
    assert_eq!(presence_of(Ok(Some(vec![1u8]))), Ok(true));
    assert_eq!(presence_of(Ok(None)), Ok(false));
    assert_eq!(presence_of(Err(PersistError::QuotaExceeded)), Err(PersistError::QuotaExceeded));
}

#[test]
fn save_schedule_waits_for_the_debounce_interval() {
    let config = PersistConfig::default();
    let mut schedule = SaveSchedule::new();
    assert!(!schedule.due(&config, 1_000));
    schedule.changed(1_000);
    assert!(!schedule.due(&config, 1_050));
    assert!(schedule.due(&config, 1_100));
    schedule.changed(1_090);
    assert!(!schedule.due(&config, 1_100));
    assert!(schedule.due(&config, 1_190));
    schedule.saved();
    assert!(!schedule.due(&config, 5_000));
}

#[test]
fn save_schedule_respects_auto_save_off() {
    let mut config = PersistConfig::default();
    config.auto_save = false;
    let mut schedule = SaveSchedule::new();
    schedule.changed(0);
    assert!(!schedule.due(&config, 10_000));
}
