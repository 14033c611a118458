//! State persistence: storage adapters, persistence configuration and a
//! store wrapper that saves and restores versioned state.
//!
//! Turning a state into bytes and back is left to the caller: the wrapper
//! takes the encoded bytes (or the encoder's error), stores them under its
//! key, and checks the version of what it reads back.

use vstd::prelude::*;
use vstd::string::StringExecFns;
use vstd::rwlock::{ReadHandle, RwLock, RwLockPredicate, WriteHandle};
use std::sync::Arc;
use crate::keyed_map::ByteMap;
use crate::clock::current_timestamp_ms;
use crate::middleware::share;
use crate::store::{Store, StoreId};
use crate::text::{decimal, push_decimal};

verus! {

// ============================================================================
// Errors
// ============================================================================

/// Errors that can occur during persistence operations.
#[derive(Debug, Clone, PartialEq, Eq)]
pub enum PersistError {
    /// Failed to serialize state.
    Serialization(String),
    /// Failed to deserialize state.
    Deserialization(String),
    /// Storage is not available.
    NotAvailable(String),
    /// Storage quota exceeded.
    QuotaExceeded,
    /// Key not found.
    NotFound(String),
    /// Permission denied.
    PermissionDenied(String),
    /// Network error (for server sync).
    Network(String),
    /// Version mismatch during migration.
    VersionMismatch {
        /// The version the store expects.
        expected: u32,
        /// The version that was found in storage.
        found: u32,
    },
    /// Internal error.
    Internal(String),
}

impl PersistError {
    /// The text of the error message.
    pub open spec fn message_spec(&self) -> Seq<char> {
        match self {
            PersistError::Serialization(s) => "Serialization error: "@ + s@,
            PersistError::Deserialization(s) => "Deserialization error: "@ + s@,
            PersistError::NotAvailable(s) => "Storage not available: "@ + s@,
            PersistError::QuotaExceeded => "Storage quota exceeded"@,
            PersistError::NotFound(s) => "Key not found: "@ + s@,
            PersistError::PermissionDenied(s) => "Permission denied: "@ + s@,
            PersistError::Network(s) => "Network error: "@ + s@,
            PersistError::VersionMismatch { expected, found } => "Version mismatch: expected "@
                + decimal(*expected as nat) + ", found "@ + decimal(*found as nat),
            PersistError::Internal(s) => "Internal error: "@ + s@,
        }
    }

    /// The human-readable error message.
    pub fn message(&self) -> (r: String)
        ensures
            r@ == self.message_spec(),
    {
        match self {
            PersistError::Serialization(s) => String::from_str("Serialization error: ").concat(s.as_str()),
            PersistError::Deserialization(s) => String::from_str("Deserialization error: ").concat(
                s.as_str(),
            ),
            PersistError::NotAvailable(s) => String::from_str("Storage not available: ").concat(s.as_str()),
            PersistError::QuotaExceeded => String::from_str("Storage quota exceeded"),
            PersistError::NotFound(s) => String::from_str("Key not found: ").concat(s.as_str()),
            PersistError::PermissionDenied(s) => String::from_str("Permission denied: ").concat(s.as_str()),
            PersistError::Network(s) => String::from_str("Network error: ").concat(s.as_str()),
            PersistError::VersionMismatch { expected, found } => {
                let mut r = String::from_str("Version mismatch: expected ");
                push_decimal(&mut r, *expected as u64);
                r.append(", found ");
                push_decimal(&mut r, *found as u64);
                r
            },
            PersistError::Internal(s) => String::from_str("Internal error: ").concat(s.as_str()),
        }
    }
}

/// Result type for persistence operations.
pub type PersistResult<T> = Result<T, PersistError>;

// ============================================================================
// Storage types
// ============================================================================

/// Types of storage backends.
#[derive(Debug, Clone, Copy, PartialEq, Eq, Structural)]
pub enum StorageType {
    /// In-memory storage (volatile).
    Memory,
    /// Browser localStorage (persistent, synchronous).
    LocalStorage,
    /// Browser sessionStorage (session-scoped).
    SessionStorage,
    /// IndexedDB (persistent, asynchronous, larger capacity).
    IndexedDb,
    /// Server-side storage.
    Server,
    /// Custom storage implementation.
    Custom,
}

impl StorageType {
    /// The display name of a storage type.
    pub open spec fn label_spec(&self) -> Seq<char> {
        match self {
            StorageType::Memory => "Memory"@,
            StorageType::LocalStorage => "LocalStorage"@,
            StorageType::SessionStorage => "SessionStorage"@,
            StorageType::IndexedDb => "IndexedDB"@,
            StorageType::Server => "Server"@,
            StorageType::Custom => "Custom"@,
        }
    }

    /// The display name of the storage type.
    pub fn label(&self) -> (r: &'static str)
        ensures
            r@ == self.label_spec(),
    {
        match self {
            StorageType::Memory => "Memory",
            StorageType::LocalStorage => "LocalStorage",
            StorageType::SessionStorage => "SessionStorage",
            StorageType::IndexedDb => "IndexedDB",
            StorageType::Server => "Server",
            StorageType::Custom => "Custom",
        }
    }

    /// The display name of the storage type, as an owned string.
    pub fn display(&self) -> (r: String)
        ensures
            r@ == self.label_spec(),
    {
        String::from_str(self.label())
    }
}

// ============================================================================
// Adapter trait
// ============================================================================

/// A storage backend for persisted state.
///
/// Implemented by the library's adapters and by users for their own
/// backends.
pub trait PersistenceAdapter: Send + Sync {
    /// Whether `r` is an answer `save` may give for `data` under `key`. An
    /// adapter written outside verified code keeps this default: nothing is
    /// known of its answers.
    closed spec fn answers_save(&self, key: Seq<char>, data: Seq<u8>, r: PersistResult<()>) -> bool {
        true
    }

    /// Whether `r` is an answer `load` may give for `key`. An adapter
    /// written outside verified code keeps this default.
    closed spec fn answers_load(&self, key: Seq<char>, r: PersistResult<Option<Vec<u8>>>) -> bool {
        true
    }

    /// Whether `r` is an answer `remove` may give for `key`. An adapter
    /// written outside verified code keeps this default.
    closed spec fn answers_remove(&self, key: Seq<char>, r: PersistResult<()>) -> bool {
        true
    }

    /// Save data under `key`.
    fn save(&self, key: &str, data: &[u8]) -> (r: PersistResult<()>)
        ensures
            self.answers_save(key@, data@, r),
    ;

    /// Load the data saved under `key`, if any.
    fn load(&self, key: &str) -> (r: PersistResult<Option<Vec<u8>>>)
        ensures
            self.answers_load(key@, r),
    ;

    /// Remove the data saved under `key`.
    fn remove(&self, key: &str) -> (r: PersistResult<()>)
        ensures
            self.answers_remove(key@, r),
    ;

    /// The storage type.
    fn storage_type(&self) -> StorageType;

    /// Whether the adapter can be used.
    fn is_available(&self) -> (r: bool)
        default_ensures
            r,
    {
        true
    }

    /// Storage capacity, if the backend reports it.
    fn capacity(&self) -> (r: Option<StorageCapacity>)
        default_ensures
            r is None,
    {
        None
    }

    /// Remove all data in this adapter's namespace.
    fn clear(&self) -> (r: PersistResult<()>)
        default_ensures
            r is Ok,
    {
        Ok(())
    }

    /// All keys in this adapter's namespace.
    fn keys(&self) -> (r: PersistResult<Vec<String>>)
        default_ensures
            r matches Ok(k) && k@.len() == 0,
    {
        Ok(Vec::new())
    }
}

/// Storage capacity information.
#[derive(Debug, Clone, Copy, PartialEq, Eq, Structural)]
pub struct StorageCapacity {
    /// Total capacity in bytes (if known).
    pub total: Option<u64>,
    /// Used capacity in bytes (if known).
    pub used: Option<u64>,
    /// Available capacity in bytes (if known).
    pub available: Option<u64>,
}

impl StorageCapacity {
    /// Capacity information with every figure unknown.
    pub fn unknown() -> (c: StorageCapacity)
        ensures
            c.total is None,
            c.used is None,
            c.available is None,
    {
        StorageCapacity { total: None, used: None, available: None }
    }

    /// Capacity information from the total and used bytes; the available
    /// bytes are the difference, or 0 when more than the total is used.
    pub fn known(total: u64, used: u64) -> (c: StorageCapacity)
        ensures
            c.total == Some(total),
            c.used == Some(used),
            c.available == Some(if used <= total { (total - used) as u64 } else { 0u64 }),
    {
        StorageCapacity {
            total: Some(total),
            used: Some(used),
            available: Some(total.saturating_sub(used)),
        }
    }
}

// ============================================================================
// Memory adapter
// ============================================================================

/// Only well-formed maps are held by a memory adapter.
pub struct WellFormedMap;

impl RwLockPredicate<ByteMap> for WellFormedMap {
    open spec fn inv(self, v: ByteMap) -> bool {
        v.wf()
    }
}

/// In-memory persistence adapter, for testing and development.
///
/// Data lives in memory and is lost when the application stops. Clones
/// share the same storage.
pub struct MemoryAdapter {
    storage: Arc<RwLock<ByteMap, WellFormedMap>>,
}

impl Clone for MemoryAdapter {
    fn clone(&self) -> (r: Self)
        ensures
            r.storage_spec() == self.storage_spec(),
    {
        MemoryAdapter { storage: share(&self.storage) }
    }
}

impl MemoryAdapter {
    /// The shared storage.
    pub closed spec fn storage_spec(&self) -> Arc<RwLock<ByteMap, WellFormedMap>> {
        self.storage
    }

    /// Whether the storage lock keeps its maps well formed.
    pub closed spec fn wf(&self) -> bool {
        self.storage.pred() == WellFormedMap
    }

    /// Create an empty memory adapter.
    pub fn new() -> (a: MemoryAdapter)
        ensures
            a.wf(),
    {
        MemoryAdapter { storage: Arc::new(RwLock::new(ByteMap::new(), Ghost(WellFormedMap))) }
    }

    /// Create a memory adapter holding `data`.
    pub fn with_data(data: ByteMap) -> (a: MemoryAdapter)
        requires
            data.wf(),
        ensures
            a.wf(),
    {
        MemoryAdapter { storage: Arc::new(RwLock::new(data, Ghost(WellFormedMap))) }
    }

    /// A copy of everything stored, for inspection.
    pub fn snapshot(&self) -> (r: ByteMap)
        ensures
            r.wf(),
    {
        let handle = self.storage.acquire_read();
        let r = handle.borrow().copy();
        handle.release_read();
        r
    }

    /// The number of stored items.
    pub fn len(&self) -> (r: usize)
        ensures
            exists|h: ReadHandle<ByteMap, WellFormedMap>|
                #[trigger] call_ensures(RwLock::<ByteMap, WellFormedMap>::acquire_read, (&*self.storage_spec(),), h) && r == h.view()@.dom().len(),
    {
        let handle = self.storage.acquire_read();
        assert(call_ensures(RwLock::<ByteMap, WellFormedMap>::acquire_read, (&*self.storage_spec(),), handle));
        let n = handle.borrow().len();
        handle.release_read();
        n
    }

    /// Whether nothing is stored.
    pub fn is_empty(&self) -> (r: bool) {
        self.len() == 0
    }
}

impl PersistenceAdapter for MemoryAdapter {
    open spec fn answers_save(&self, key: Seq<char>, data: Seq<u8>, r: PersistResult<()>) -> bool {
        r is Ok
    }

    open spec fn answers_load(&self, key: Seq<char>, r: PersistResult<Option<Vec<u8>>>) -> bool {
        r is Ok
    }

    open spec fn answers_remove(&self, key: Seq<char>, r: PersistResult<()>) -> bool {
        r is Ok
    }

    fn save(&self, key: &str, data: &[u8]) -> (r: PersistResult<()>)
        ensures
            r is Ok,
            exists|taken: ByteMap, handle: WriteHandle<ByteMap, WellFormedMap>, stored: ByteMap|
                #![trigger call_ensures(
                    RwLock::<ByteMap, WellFormedMap>::acquire_write,
                    (&*self.storage_spec(),),
                    (taken, handle),
                ), call_ensures(WriteHandle::<ByteMap, WellFormedMap>::release_write, (handle, stored), ())]
                call_ensures(
                    RwLock::<ByteMap, WellFormedMap>::acquire_write,
                    (&*self.storage_spec(),),
                    (taken, handle),
                ) && call_ensures(WriteHandle::<ByteMap, WellFormedMap>::release_write, (handle, stored), ())
                    && stored@.dom() == taken@.dom().insert(key@) && stored@[key@]@ == data@
                    && forall|k: Seq<char>| k != key@ ==> #[trigger] stored@[k] == taken@[k],
    {
        let (mut map, handle) = self.storage.acquire_write();
        let ghost taken = map;
        let ghost h = handle;
        assert(call_ensures(
            RwLock::<ByteMap, WellFormedMap>::acquire_write,
            (&*self.storage_spec(),),
            (taken, h),
        ));
        let bytes = slice_to_vec(data);
        map.insert(key.to_owned(), bytes);
        let ghost stored = map;
        handle.release_write(map);
        assert(call_ensures(WriteHandle::<ByteMap, WellFormedMap>::release_write, (h, stored), ()));
        assert(stored@.dom() =~= taken@.dom().insert(key@));
        Ok(())
    }

    fn load(&self, key: &str) -> (r: PersistResult<Option<Vec<u8>>>)
        ensures
            r is Ok,
            exists|handle: ReadHandle<ByteMap, WellFormedMap>|
                #[trigger] call_ensures(
                    RwLock::<ByteMap, WellFormedMap>::acquire_read,
                    (&*self.storage_spec(),),
                    handle,
                ) && match r {
                    Ok(Some(v)) => handle.view()@.contains_key(key@) && v@ == handle.view()@[key@]@,
                    Ok(None) => !handle.view()@.contains_key(key@),
                    Err(_) => false,
                },
    {
        let handle = self.storage.acquire_read();
        assert(call_ensures(
            RwLock::<ByteMap, WellFormedMap>::acquire_read,
            (&*self.storage_spec(),),
            handle,
        ));
        let r = match handle.borrow().get(key) {
            Some(v) => Some(v.clone()),
            None => None,
        };
        handle.release_read();
        Ok(r)
    }

    fn remove(&self, key: &str) -> (r: PersistResult<()>)
        ensures
            r is Ok,
            exists|taken: ByteMap, handle: WriteHandle<ByteMap, WellFormedMap>, stored: ByteMap|
                #![trigger call_ensures(
                    RwLock::<ByteMap, WellFormedMap>::acquire_write,
                    (&*self.storage_spec(),),
                    (taken, handle),
                ), call_ensures(WriteHandle::<ByteMap, WellFormedMap>::release_write, (handle, stored), ())]
                call_ensures(
                    RwLock::<ByteMap, WellFormedMap>::acquire_write,
                    (&*self.storage_spec(),),
                    (taken, handle),
                ) && call_ensures(WriteHandle::<ByteMap, WellFormedMap>::release_write, (handle, stored), ())
                    && stored@ == taken@.remove(key@),
    {
        let (mut map, handle) = self.storage.acquire_write();
        let ghost taken = map;
        let ghost h = handle;
        assert(call_ensures(
            RwLock::<ByteMap, WellFormedMap>::acquire_write,
            (&*self.storage_spec(),),
            (taken, h),
        ));
        map.remove(key);
        let ghost stored = map;
        handle.release_write(map);
        assert(call_ensures(WriteHandle::<ByteMap, WellFormedMap>::release_write, (h, stored), ()));
        Ok(())
    }

    fn storage_type(&self) -> (r: StorageType)
        ensures
            r == StorageType::Memory,
    {
        StorageType::Memory
    }

    fn clear(&self) -> (r: PersistResult<()>)
        ensures
            r is Ok,
            exists|taken: ByteMap, handle: WriteHandle<ByteMap, WellFormedMap>, stored: ByteMap|
                #![trigger call_ensures(RwLock::<ByteMap, WellFormedMap>::acquire_write, (&*self.storage_spec(),), (taken, handle)), call_ensures(WriteHandle::<ByteMap, WellFormedMap>::release_write, (handle, stored), ())]
                call_ensures(RwLock::<ByteMap, WellFormedMap>::acquire_write, (&*self.storage_spec(),), (taken, handle))
                    && call_ensures(WriteHandle::<ByteMap, WellFormedMap>::release_write, (handle, stored), ()) && stored@.dom().len() == 0,
    {
        let (mut map, handle) = self.storage.acquire_write();
        let ghost taken = map;
        let ghost h = handle;
        assert(call_ensures(RwLock::<ByteMap, WellFormedMap>::acquire_write, (&*self.storage_spec(),), (taken, h)));
        map.clear();
        let ghost stored = map;
        handle.release_write(map);
        assert(call_ensures(WriteHandle::<ByteMap, WellFormedMap>::release_write, (h, stored), ()));
        Ok(())
    }

    fn keys(&self) -> (r: PersistResult<Vec<String>>)
        ensures
            r matches Ok(k) && k@.map_values(|s: String| s@).no_duplicates(),
            exists|h: ReadHandle<ByteMap, WellFormedMap>|
                #[trigger] call_ensures(RwLock::<ByteMap, WellFormedMap>::acquire_read, (&*self.storage_spec(),), h) && (r matches Ok(k) && k@.map_values(
                    |s: String| s@,
                ).to_set() == h.view()@.dom()),
    {
        let handle = self.storage.acquire_read();
        assert(call_ensures(RwLock::<ByteMap, WellFormedMap>::acquire_read, (&*self.storage_spec(),), handle));
        let map = handle.borrow();
        proof {
            map.lemma_key_order();
        }
        let keys = map.keys();
        handle.release_read();
        Ok(keys)
    }
}

/// Removing a key from a memory adapter puts back under its lock the map
/// it took out with only that key gone: the key has no bytes any more, and
/// every other key keeps the bytes it had.
pub proof fn law_memory_remove_only_that_key(a: &MemoryAdapter, key: &str, r: PersistResult<()>)
    requires
        call_ensures(<MemoryAdapter as PersistenceAdapter>::remove, (a, key), r),
    ensures
        r is Ok,
        exists|taken: ByteMap, handle: WriteHandle<ByteMap, WellFormedMap>, stored: ByteMap|
            #![trigger call_ensures(
                RwLock::<ByteMap, WellFormedMap>::acquire_write,
                (&*a.storage_spec(),),
                (taken, handle),
            ), call_ensures(WriteHandle::<ByteMap, WellFormedMap>::release_write, (handle, stored), ())]
            call_ensures(
                RwLock::<ByteMap, WellFormedMap>::acquire_write,
                (&*a.storage_spec(),),
                (taken, handle),
            ) && call_ensures(WriteHandle::<ByteMap, WellFormedMap>::release_write, (handle, stored), ()) && {
                &&& !stored@.contains_key(key@)
                &&& forall|k: Seq<char>|
                    k != key@ ==> (#[trigger] stored@.contains_key(k) == taken@.contains_key(k) && (
                    stored@.contains_key(k) ==> stored@[k] == taken@[k]))
            },
{
}

/// Saving bytes under a key in a memory adapter puts back under its lock
/// the map it took out with those bytes under the key, every other key
/// keeping the bytes it had.
pub proof fn law_memory_save_stores_the_bytes(a: &MemoryAdapter, key: &str, data: &[u8], r: PersistResult<()>)
    requires
        call_ensures(<MemoryAdapter as PersistenceAdapter>::save, (a, key, data), r),
    ensures
        r is Ok,
        exists|taken: ByteMap, handle: WriteHandle<ByteMap, WellFormedMap>, stored: ByteMap|
            #![trigger call_ensures(
                RwLock::<ByteMap, WellFormedMap>::acquire_write,
                (&*a.storage_spec(),),
                (taken, handle),
            ), call_ensures(WriteHandle::<ByteMap, WellFormedMap>::release_write, (handle, stored), ())]
            call_ensures(
                RwLock::<ByteMap, WellFormedMap>::acquire_write,
                (&*a.storage_spec(),),
                (taken, handle),
            ) && call_ensures(WriteHandle::<ByteMap, WellFormedMap>::release_write, (handle, stored), ()) && {
                &&& stored@.contains_key(key@) && stored@[key@]@ == data@
                &&& forall|k: Seq<char>|
                    k != key@ ==> (#[trigger] stored@.contains_key(k) == taken@.contains_key(k) && (
                    stored@.contains_key(k) ==> stored@[k] == taken@[k]))
            },
{
}

/// A vector holding the bytes of a slice.
fn slice_to_vec(data: &[u8]) -> (r: Vec<u8>)
    ensures
        r@ == data@,
{
    let mut r: Vec<u8> = Vec::new();
    let mut i: usize = 0;
    while i < data.len()
        invariant
            i <= data@.len(),
            r@ == data@.take(i as int),
        decreases data.len() - i,
    {
        r.push(data[i]);
        i = i + 1;
        proof {
            assert(r@ =~= data@.take(i as int));
        }
    }
    proof {
        assert(data@.take(data@.len() as int) =~= data@);
    }
    r
}

// ============================================================================
// Configuration
// ============================================================================

/// Configuration for persistent stores.
#[derive(Debug, Clone)]
pub struct PersistConfig {
    /// Storage key for this store.
    pub key: String,
    /// Debounce time in milliseconds (0 = no debounce).
    pub debounce_ms: u64,
    /// Version number for migrations.
    pub version: u32,
    /// Whether to auto-save on state changes.
    pub auto_save: bool,
    /// Whether to auto-load on store creation.
    pub auto_load: bool,
    /// Prefix for storage keys.
    pub key_prefix: String,
}

impl Default for PersistConfig {
    fn default() -> (c: PersistConfig)
        ensures
            c.key@ == Seq::<char>::empty(),
            c.debounce_ms == 100,
            c.version == 1,
            c.auto_save,
            c.auto_load,
            c.key_prefix@ == "leptos_store_"@,
    {
        PersistConfig {
            key: String::new(),
            debounce_ms: 100,
            version: 1,
            auto_save: true,
            auto_load: true,
            key_prefix: String::from_str("leptos_store_"),
        }
    }
}

impl PersistConfig {
    /// A default configuration for `key`.
    pub fn new(key: &str) -> (c: PersistConfig)
        ensures
            c.key@ == key@,
            c.debounce_ms == 100,
            c.version == 1,
            c.auto_save,
            c.auto_load,
            c.key_prefix@ == "leptos_store_"@,
    {
        PersistConfig { key: key.to_owned(), ..PersistConfig::default() }
    }

    /// The full storage key: the prefix followed by the key.
    pub fn full_key(&self) -> (r: String)
        ensures
            r@ == self.key_prefix@ + self.key@,
    {
        self.key_prefix.clone().concat(self.key.as_str())
    }
}

// ============================================================================
// Persisted state
// ============================================================================

/// State together with the version it was saved under.
#[derive(Debug, Clone)]
pub struct PersistedState<State> {
    /// The actual state data.
    pub state: State,
    /// Version number for migration.
    pub version: u32,
    /// Timestamp when saved (milliseconds since epoch).
    pub saved_at: u64,
}

impl<State> PersistedState<State> {
    /// Wrap a state with its version, timestamped now.
    pub fn new(state: State, version: u32) -> (p: PersistedState<State>)
        ensures
            p.state == state,
            p.version == version,
    {
        PersistedState { state, version, saved_at: current_timestamp_ms() }
    }
}

// ============================================================================
// Persistent store
// ============================================================================

/// When a changed state is due to be saved automatically.
///
/// Each change restarts the debounce interval; once the interval has
/// passed without a further change, a save is due (if auto-save is on).
#[derive(Debug, Clone, Copy, PartialEq, Eq, Structural)]
pub struct SaveSchedule {
    /// When the state last changed, if a change awaits saving.
    pub pending_since: Option<u64>,
}

impl SaveSchedule {
    /// Nothing awaits saving.
    pub fn new() -> (s: SaveSchedule)
        ensures
            s.pending_since is None,
    {
        SaveSchedule { pending_since: None }
    }

    /// The state changed at `now`: a save is pending, and its debounce
    /// interval starts again.
    pub fn changed(&mut self, now: u64)
        ensures
            final(self).pending_since == Some(now),
    {
        self.pending_since = Some(now);
    }

    /// Whether a save is due at `now` under `config`: auto-save is on, a
    /// change is pending, and the debounce interval has passed since it.
    pub fn due(&self, config: &PersistConfig, now: u64) -> (r: bool)
        ensures
            r == (config.auto_save && (self.pending_since matches Some(t) && now >= t + config.debounce_ms)),
    {
        match self.pending_since {
            Some(t) => config.auto_save && now >= t && now - t >= config.debounce_ms,
            None => false,
        }
    }

    /// The state was saved: nothing awaits saving.
    pub fn saved(&mut self)
        ensures
            final(self).pending_since is None,
    {
        self.pending_since = None;
    }
}

/// A store wrapper that saves its state to an adapter and reads it back.
///
/// With auto-save on, changes are saved once the debounce interval has
/// passed without a further change ([`SaveSchedule`]); with auto-load on,
/// the saved state is read when the store starts
/// ([`PersistentStore::load_on_start`]). Clones share the adapter.
#[verifier::reject_recursive_types(A)]
pub struct PersistentStore<S: Store, A: PersistenceAdapter> {
    inner: S,
    adapter: Arc<A>,
    config: PersistConfig,
}

impl<S: Store, A: PersistenceAdapter> Clone for PersistentStore<S, A> {
    fn clone(&self) -> (r: Self)
        ensures
            r.adapter_spec() == self.adapter_spec(),
    {
        PersistentStore {
            inner: self.inner.clone(),
            adapter: share(&self.adapter),
            config: self.config.clone(),
        }
    }
}

impl<S: Store, A: PersistenceAdapter + 'static> PersistentStore<S, A> {
    /// The wrapped store.
    pub closed spec fn inner_spec(&self) -> S {
        self.inner
    }

    /// The adapter.
    pub closed spec fn adapter_spec(&self) -> Arc<A> {
        self.adapter
    }

    /// The configuration.
    pub closed spec fn config_spec(&self) -> PersistConfig {
        self.config
    }

    /// The key the state is stored under: the prefix followed by the key.
    pub open spec fn key_spec(&self) -> Seq<char> {
        self.config_spec().key_prefix@ + self.config_spec().key@
    }

    /// Wrap `store`, saving through `adapter` with the default
    /// configuration.
    pub fn new(store: S, adapter: A) -> (p: Self)
        ensures
            p.inner_spec() == store,
            forall|id: StoreId| #[trigger] p.has_id(id) == store.has_id(id),
            forall|name: &'static str| #[trigger] p.has_name(name) == store.has_name(name),
            *p.adapter_spec() == adapter,
            p.config_spec().key@ == Seq::<char>::empty(),
            p.config_spec().debounce_ms == 100,
            p.config_spec().version == 1,
            p.config_spec().auto_save,
            p.config_spec().auto_load,
            p.config_spec().key_prefix@ == "leptos_store_"@,
    {
        PersistentStore { inner: store, adapter: Arc::new(adapter), config: PersistConfig::default() }
    }

    /// Set the storage key.
    pub fn with_key(self, key: &str) -> (p: Self)
        ensures
            p.config_spec().key@ == key@,
            p.config_spec().key_prefix == self.config_spec().key_prefix,
            p.config_spec().debounce_ms == self.config_spec().debounce_ms,
            p.config_spec().version == self.config_spec().version,
            p.config_spec().auto_save == self.config_spec().auto_save,
            p.config_spec().auto_load == self.config_spec().auto_load,
            p.inner_spec() == self.inner_spec(),
            p.adapter_spec() == self.adapter_spec(),
    {
        let mut p = self;
        p.config.key = key.to_owned();
        p
    }

    /// Set the debounce time in milliseconds.
    pub fn with_debounce(self, ms: u64) -> (p: Self)
        ensures
            p.config_spec() == (PersistConfig { debounce_ms: ms, ..self.config_spec() }),
            p.inner_spec() == self.inner_spec(),
            p.adapter_spec() == self.adapter_spec(),
    {
        let mut p = self;
        p.config.debounce_ms = ms;
        p
    }

    /// Set the version number for migrations.
    pub fn with_version(self, version: u32) -> (p: Self)
        ensures
            p.config_spec() == (PersistConfig { version, ..self.config_spec() }),
            p.inner_spec() == self.inner_spec(),
            p.adapter_spec() == self.adapter_spec(),
    {
        let mut p = self;
        p.config.version = version;
        p
    }

    /// Enable or disable auto-save.
    pub fn with_auto_save(self, enabled: bool) -> (p: Self)
        ensures
            p.config_spec() == (PersistConfig { auto_save: enabled, ..self.config_spec() }),
            p.inner_spec() == self.inner_spec(),
            p.adapter_spec() == self.adapter_spec(),
    {
        let mut p = self;
        p.config.auto_save = enabled;
        p
    }

    /// Enable or disable auto-load.
    pub fn with_auto_load(self, enabled: bool) -> (p: Self)
        ensures
            p.config_spec() == (PersistConfig { auto_load: enabled, ..self.config_spec() }),
            p.inner_spec() == self.inner_spec(),
            p.adapter_spec() == self.adapter_spec(),
    {
        let mut p = self;
        p.config.auto_load = enabled;
        p
    }

    /// Set a custom key prefix.
    pub fn with_key_prefix(self, prefix: &str) -> (p: Self)
        ensures
            p.config_spec().key_prefix@ == prefix@,
            p.config_spec().key == self.config_spec().key,
            p.config_spec().debounce_ms == self.config_spec().debounce_ms,
            p.config_spec().version == self.config_spec().version,
            p.config_spec().auto_save == self.config_spec().auto_save,
            p.config_spec().auto_load == self.config_spec().auto_load,
            p.inner_spec() == self.inner_spec(),
            p.adapter_spec() == self.adapter_spec(),
    {
        let mut p = self;
        p.config.key_prefix = prefix.to_owned();
        p
    }

    /// Get the inner store.
    pub fn inner(&self) -> (r: &S)
        ensures
            *r == self.inner_spec(),
    {
        &self.inner
    }

    /// Get mutable access to the inner store.
    pub fn inner_mut(&mut self) -> (r: &mut S)
        ensures
            *r == old(self).inner_spec(),
            final(self).inner_spec() == *final(r),
            final(self).adapter_spec() == old(self).adapter_spec(),
            final(self).config_spec() == old(self).config_spec(),
    {
        &mut self.inner
    }

    /// Get the adapter.
    pub fn adapter(&self) -> (r: &A)
        ensures
            *r == *self.adapter_spec(),
    {
        &self.adapter
    }

    /// Get the configuration.
    pub fn config(&self) -> (r: &PersistConfig)
        ensures
            *r == self.config_spec(),
    {
        &self.config
    }

    /// Whether the saved state is read when the store starts.
    pub fn load_on_start(&self) -> (r: bool)
        ensures
            r == self.config_spec().auto_load,
    {
        self.config.auto_load
    }

    /// Get the full storage key.
    pub fn storage_key(&self) -> (r: String)
        ensures
            r@ == self.key_spec(),
    {
        self.config.full_key()
    }

    /// The current state of the inner store, wrapped with the configured
    /// version, ready to be encoded.
    pub fn snapshot(&self) -> (p: PersistedState<S::State>)
        ensures
            p.version == self.config_spec().version,
    {
        PersistedState::new(self.inner.state(), self.config.version)
    }

    /// Save encoded state: an encoding error is reported as
    /// `Serialization`; otherwise the bytes are saved under the storage
    /// key and the adapter's outcome is returned.
    pub fn save_encoded(&self, encoded: Result<Vec<u8>, String>) -> (r: PersistResult<()>)
        ensures
            encoded matches Err(e) ==> r == Err::<(), PersistError>(PersistError::Serialization(e)),
            encoded matches Ok(bytes) ==> (*self.adapter_spec()).answers_save(self.key_spec(), bytes@, r),
    {
        match encoded {
            Err(e) => Err(PersistError::Serialization(e)),
            Ok(bytes) => {
                let key = self.storage_key();
                self.adapter.save(key.as_str(), bytes.as_slice())
            },
        }
    }

    /// The bytes saved under the storage key, if any.
    pub fn load_bytes(&self) -> (r: PersistResult<Option<Vec<u8>>>)
        ensures
            (*self.adapter_spec()).answers_load(self.key_spec(), r),
    {
        let key = self.storage_key();
        self.adapter.load(key.as_str())
    }

    /// What loading yields once the stored bytes (if any) have been
    /// decoded: nothing stored gives `None`; a decoding error gives
    /// `Deserialization`; a state saved under another version gives
    /// `VersionMismatch`; otherwise the state.
    pub fn finish_load(&self, decoded: Option<Result<PersistedState<S::State>, String>>) -> (r: PersistResult<Option<S::State>>)
        ensures
            r == match decoded {
                None => Ok(None),
                Some(Err(e)) => Err(PersistError::Deserialization(e)),
                Some(Ok(p)) => if p.version == self.config_spec().version {
                    Ok(Some(p.state))
                } else {
                    Err(
                        PersistError::VersionMismatch {
                            expected: self.config_spec().version,
                            found: p.version,
                        },
                    )
                },
            },
    {
        match decoded {
            None => Ok(None),
            Some(Err(e)) => Err(PersistError::Deserialization(e)),
            Some(Ok(p)) => {
                if p.version != self.config.version {
                    Err(
                        PersistError::VersionMismatch {
                            expected: self.config.version,
                            found: p.version,
                        },
                    )
                } else {
                    Ok(Some(p.state))
                }
            },
        }
    }

    /// Remove the persisted state.
    pub fn remove(&self) -> (r: PersistResult<()>)
        ensures
            (*self.adapter_spec()).answers_remove(self.key_spec(), r),
    {
        let key = self.storage_key();
        self.adapter.remove(key.as_str())
    }

    /// Whether persisted state exists: `true` when the adapter returns
    /// bytes, and the adapter's error if it fails.
    pub fn has_saved_state(&self) -> (r: PersistResult<bool>)
        ensures
            exists|loaded: PersistResult<Option<Vec<u8>>>|
                (*self.adapter_spec()).answers_load(self.key_spec(), loaded) && r == #[trigger] presence_of_spec(
                    loaded,
                ),
    {
        presence_of(self.load_bytes())
    }
}

/// Whether a load found saved bytes, or the load's error.
pub open spec fn presence_of_spec(loaded: PersistResult<Option<Vec<u8>>>) -> PersistResult<bool> {
    match loaded {
        Ok(data) => Ok(data is Some),
        Err(e) => Err(e),
    }
}

/// Whether a load found saved bytes: `true` for bytes, `false` for none,
/// and the load's error as it is.
pub fn presence_of(loaded: PersistResult<Option<Vec<u8>>>) -> (r: PersistResult<bool>)
    ensures
        r == presence_of_spec(loaded),
{
    match loaded {
        Ok(data) => Ok(data.is_some()),
        Err(e) => Err(e),
    }
}

impl<S: Store, A: PersistenceAdapter + 'static> Store for PersistentStore<S, A> {
    type State = S::State;

    open spec fn has_id(&self, id: StoreId) -> bool {
        self.inner_spec().has_id(id)
    }

    open spec fn has_name(&self, name: &'static str) -> bool {
        self.inner_spec().has_name(name)
    }

    fn state(&self) -> S::State {
        self.inner.state()
    }

    fn id(&self) -> StoreId {
        self.inner.id()
    }

    fn name(&self) -> &'static str {
        self.inner.name()
    }
}

// ============================================================================
// Browser storage adapters
// ============================================================================

fn not_in_browser_error() -> (e: PersistError)
    ensures
        e matches PersistError::NotAvailable(m) && m@ == "Not in browser"@,
{
    PersistError::NotAvailable(String::from_str("Not in browser"))
}

/// The browser's localStorage, which persists across sessions.
///
/// Outside a browser it is unavailable and every operation fails with
/// `NotAvailable("Not in browser")`.
#[derive(Debug, Clone, Copy, Default)]
pub struct LocalStorageAdapter {
    unit: (),
}

impl LocalStorageAdapter {
    /// Create a localStorage adapter.
    pub fn new() -> LocalStorageAdapter {
        LocalStorageAdapter { unit: () }
    }
}

impl PersistenceAdapter for LocalStorageAdapter {
    open spec fn answers_save(&self, key: Seq<char>, data: Seq<u8>, r: PersistResult<()>) -> bool {
        r matches Err(PersistError::NotAvailable(m)) && m@ == "Not in browser"@
    }

    open spec fn answers_load(&self, key: Seq<char>, r: PersistResult<Option<Vec<u8>>>) -> bool {
        r matches Err(PersistError::NotAvailable(m)) && m@ == "Not in browser"@
    }

    open spec fn answers_remove(&self, key: Seq<char>, r: PersistResult<()>) -> bool {
        r matches Err(PersistError::NotAvailable(m)) && m@ == "Not in browser"@
    }

    fn save(&self, key: &str, data: &[u8]) -> (r: PersistResult<()>)
        ensures
            r matches Err(PersistError::NotAvailable(m)) && m@ == "Not in browser"@,
    {
        Err(not_in_browser_error())
    }

    fn load(&self, key: &str) -> (r: PersistResult<Option<Vec<u8>>>)
        ensures
            r matches Err(PersistError::NotAvailable(m)) && m@ == "Not in browser"@,
    {
        Err(not_in_browser_error())
    }

    fn remove(&self, key: &str) -> (r: PersistResult<()>)
        ensures
            r matches Err(PersistError::NotAvailable(m)) && m@ == "Not in browser"@,
    {
        Err(not_in_browser_error())
    }

    fn storage_type(&self) -> (r: StorageType)
        ensures
            r == StorageType::LocalStorage,
    {
        StorageType::LocalStorage
    }

    fn is_available(&self) -> (r: bool)
        ensures
            !r,
    {
        false
    }
}

/// The browser's sessionStorage, which lasts for one session.
///
/// Outside a browser it is unavailable and every operation fails with
/// `NotAvailable("Not in browser")`.
#[derive(Debug, Clone, Copy, Default)]
pub struct SessionStorageAdapter {
    unit: (),
}

impl SessionStorageAdapter {
    /// Create a sessionStorage adapter.
    pub fn new() -> SessionStorageAdapter {
        SessionStorageAdapter { unit: () }
    }
}

impl PersistenceAdapter for SessionStorageAdapter {
    open spec fn answers_save(&self, key: Seq<char>, data: Seq<u8>, r: PersistResult<()>) -> bool {
        r matches Err(PersistError::NotAvailable(m)) && m@ == "Not in browser"@
    }

    open spec fn answers_load(&self, key: Seq<char>, r: PersistResult<Option<Vec<u8>>>) -> bool {
        r matches Err(PersistError::NotAvailable(m)) && m@ == "Not in browser"@
    }

    open spec fn answers_remove(&self, key: Seq<char>, r: PersistResult<()>) -> bool {
        r matches Err(PersistError::NotAvailable(m)) && m@ == "Not in browser"@
    }

    fn save(&self, key: &str, data: &[u8]) -> (r: PersistResult<()>)
        ensures
            r matches Err(PersistError::NotAvailable(m)) && m@ == "Not in browser"@,
    {
        Err(not_in_browser_error())
    }

    fn load(&self, key: &str) -> (r: PersistResult<Option<Vec<u8>>>)
        ensures
            r matches Err(PersistError::NotAvailable(m)) && m@ == "Not in browser"@,
    {
        Err(not_in_browser_error())
    }

    fn remove(&self, key: &str) -> (r: PersistResult<()>)
        ensures
            r matches Err(PersistError::NotAvailable(m)) && m@ == "Not in browser"@,
    {
        Err(not_in_browser_error())
    }

    fn storage_type(&self) -> (r: StorageType)
        ensures
            r == StorageType::SessionStorage,
    {
        StorageType::SessionStorage
    }

    fn is_available(&self) -> (r: bool)
        ensures
            !r,
    {
        false
    }
}

/// The base64 digit of a six-bit value: `A`-`Z`, `a`-`z`, `0`-`9`, `+`,
/// `/`.
pub open spec fn base64_digit(v: int) -> char {
    if v < 26 {
        (65 + v) as char
    } else if v < 52 {
        (71 + v) as char
    } else if v < 62 {
        (v - 4) as char
    } else if v == 62 {
        '+'
    } else {
        '/'
    }
}

/// Standard base64 text of some bytes, padded with `=` (RFC 4648): every
/// three bytes become four digits of six bits each, most significant bits
/// first; a last group of one or two bytes is padded to four characters.
pub open spec fn base64_text(data: Seq<u8>) -> Seq<char>
    decreases data.len(),
{
    if data.len() == 0 {
        Seq::empty()
    } else if data.len() == 1 {
        let a = data[0] as int;
        seq![base64_digit(a / 4), base64_digit((a % 4) * 16), '=', '=']
    } else if data.len() == 2 {
        let a = data[0] as int;
        let b = data[1] as int;
        seq![base64_digit(a / 4), base64_digit((a % 4) * 16 + b / 16), base64_digit((b % 16) * 4), '=']
    } else {
        let a = data[0] as int;
        let b = data[1] as int;
        let c = data[2] as int;
        seq![
            base64_digit(a / 4),
            base64_digit((a % 4) * 16 + b / 16),
            base64_digit((b % 16) * 4 + c / 64),
            base64_digit(c % 64),
        ] + base64_text(data.skip(3))
    }
}

/// `base64::engine::general_purpose::STANDARD.encode`: the standard,
/// padded base64 text of `data`, `base64_text`. The crate panics
/// when the text's length would overflow `usize`, which `requires` rules
/// out.
#[verifier::external_body]
fn base64_encode(data: &[u8]) -> (r: String)
    requires
        data@.len() / 3 * 4 + 4 <= usize::MAX,
    ensures
        r@ == base64_text(data@),
{
    base64::Engine::encode(&base64::engine::general_purpose::STANDARD, data)
}

/// Text produced from some bytes by `base64_text` gives back those bytes.
pub open spec fn decodes_back<E>(r: Result<Vec<u8>, E>, text: Seq<char>) -> bool {
    forall|d: Seq<u8>| text == #[trigger] base64_text(d) ==> (r matches Ok(v) && v@ == d)
}

/// `base64::engine::general_purpose::STANDARD.decode`, its error turned
/// into text. Text that this engine produced from some bytes decodes back
/// to those bytes; of other text nothing is stated.
#[verifier::external_body]
fn base64_decode(text: &str) -> (r: Result<Vec<u8>, String>)
    ensures
        decodes_back(r, text@),
{
    match base64::Engine::decode(&base64::engine::general_purpose::STANDARD, text) {
        Ok(v) => Ok(v),
        Err(e) => Err(e.to_string()),
    }
}

/// The text under which browser storage keeps bytes: their base64.
pub fn encode_stored(data: &[u8]) -> (r: String)
    requires
        data@.len() / 3 * 4 + 4 <= usize::MAX,
    ensures
        r@ == base64_text(data@),
{
    base64_encode(data)
}

/// The bytes that browser storage keeps as `text`; text that is not
/// base64 gives `Deserialization`.
pub fn decode_stored(text: &str) -> (r: PersistResult<Vec<u8>>)
    ensures
        r matches Err(e) ==> e is Deserialization,
        decodes_back(r, text@),
{
    match base64_decode(text) {
        Ok(v) => Ok(v),
        Err(e) => Err(PersistError::Deserialization(e)),
    }
}

/// Bytes stored as text come back unchanged.
pub proof fn lemma_stored_text_round_trip(data: Seq<u8>, text: Seq<char>, decoded: PersistResult<Vec<u8>>)
    requires
        text == base64_text(data),
        decodes_back(decoded, text),
    ensures
        decoded matches Ok(v) && v@ == data,
{
}

// ============================================================================
// Adapters not available yet
// ============================================================================

/// IndexedDB storage (larger capacity, asynchronous); not available yet:
/// every operation fails with `NotAvailable`.
#[derive(Debug, Clone)]
pub struct IndexedDbAdapter {
    database_name: String,
    store_name: String,
}

fn idb_unavailable() -> (e: PersistError)
    ensures
        e matches PersistError::NotAvailable(m) && m@ == "IndexedDB not yet implemented"@,
{
    PersistError::NotAvailable(String::from_str("IndexedDB not yet implemented"))
}

impl IndexedDbAdapter {
    /// The database name.
    pub closed spec fn database_spec(&self) -> Seq<char> {
        self.database_name@
    }

    /// The object store name.
    pub closed spec fn store_spec(&self) -> Seq<char> {
        self.store_name@
    }

    /// An adapter for `database_name`, with the object store `store`.
    pub fn new(database_name: &str) -> (a: IndexedDbAdapter)
        ensures
            a.database_spec() == database_name@,
            a.store_spec() == "store"@,
    {
        IndexedDbAdapter {
            database_name: database_name.to_owned(),
            store_name: String::from_str("store"),
        }
    }

    /// Set the object store name.
    pub fn with_store_name(self, name: &str) -> (a: IndexedDbAdapter)
        ensures
            a.database_spec() == self.database_spec(),
            a.store_spec() == name@,
    {
        IndexedDbAdapter { store_name: name.to_owned(), ..self }
    }
}

impl PersistenceAdapter for IndexedDbAdapter {
    open spec fn answers_save(&self, key: Seq<char>, data: Seq<u8>, r: PersistResult<()>) -> bool {
        r matches Err(PersistError::NotAvailable(m)) && m@ == "IndexedDB not yet implemented"@
    }

    open spec fn answers_load(&self, key: Seq<char>, r: PersistResult<Option<Vec<u8>>>) -> bool {
        r matches Err(PersistError::NotAvailable(m)) && m@ == "IndexedDB not yet implemented"@
    }

    open spec fn answers_remove(&self, key: Seq<char>, r: PersistResult<()>) -> bool {
        r matches Err(PersistError::NotAvailable(m)) && m@ == "IndexedDB not yet implemented"@
    }

    fn save(&self, key: &str, data: &[u8]) -> (r: PersistResult<()>)
        ensures
            r matches Err(PersistError::NotAvailable(m)) && m@ == "IndexedDB not yet implemented"@,
    {
        Err(idb_unavailable())
    }

    fn load(&self, key: &str) -> (r: PersistResult<Option<Vec<u8>>>)
        ensures
            r matches Err(PersistError::NotAvailable(m)) && m@ == "IndexedDB not yet implemented"@,
    {
        Err(idb_unavailable())
    }

    fn remove(&self, key: &str) -> (r: PersistResult<()>)
        ensures
            r matches Err(PersistError::NotAvailable(m)) && m@ == "IndexedDB not yet implemented"@,
    {
        Err(idb_unavailable())
    }

    fn storage_type(&self) -> (r: StorageType)
        ensures
            r == StorageType::IndexedDb,
    {
        StorageType::IndexedDb
    }
}

/// Server-side storage; not available yet: every operation fails with
/// `NotAvailable`.
#[derive(Debug, Clone)]
pub struct ServerSyncAdapter {
    endpoint: String,
}

fn server_unavailable() -> (e: PersistError)
    ensures
        e matches PersistError::NotAvailable(m) && m@ == "Server sync not yet implemented"@,
{
    PersistError::NotAvailable(String::from_str("Server sync not yet implemented"))
}

impl ServerSyncAdapter {
    /// The endpoint.
    pub closed spec fn endpoint_spec(&self) -> Seq<char> {
        self.endpoint@
    }

    /// An adapter for `endpoint`.
    pub fn new(endpoint: &str) -> (a: ServerSyncAdapter)
        ensures
            a.endpoint_spec() == endpoint@,
    {
        ServerSyncAdapter { endpoint: endpoint.to_owned() }
    }
}

impl PersistenceAdapter for ServerSyncAdapter {
    open spec fn answers_save(&self, key: Seq<char>, data: Seq<u8>, r: PersistResult<()>) -> bool {
        r matches Err(PersistError::NotAvailable(m)) && m@ == "Server sync not yet implemented"@
    }

    open spec fn answers_load(&self, key: Seq<char>, r: PersistResult<Option<Vec<u8>>>) -> bool {
        r matches Err(PersistError::NotAvailable(m)) && m@ == "Server sync not yet implemented"@
    }

    open spec fn answers_remove(&self, key: Seq<char>, r: PersistResult<()>) -> bool {
        r matches Err(PersistError::NotAvailable(m)) && m@ == "Server sync not yet implemented"@
    }

    fn save(&self, key: &str, data: &[u8]) -> (r: PersistResult<()>)
        ensures
            r matches Err(PersistError::NotAvailable(m)) && m@ == "Server sync not yet implemented"@,
    {
        Err(server_unavailable())
    }

    fn load(&self, key: &str) -> (r: PersistResult<Option<Vec<u8>>>)
        ensures
            r matches Err(PersistError::NotAvailable(m)) && m@ == "Server sync not yet implemented"@,
    {
        Err(server_unavailable())
    }

    fn remove(&self, key: &str) -> (r: PersistResult<()>)
        ensures
            r matches Err(PersistError::NotAvailable(m)) && m@ == "Server sync not yet implemented"@,
    {
        Err(server_unavailable())
    }

    fn storage_type(&self) -> (r: StorageType)
        ensures
            r == StorageType::Server,
    {
        StorageType::Server
    }
}

} // verus!
