//! Store identity shared by every subsystem of the library.

use vstd::prelude::*;

verus! {

/// Unique identifier of a store instance.
///
/// `type_key` distinguishes store types, `instance` distinguishes several
/// instances of the same store type.
#[derive(Clone, Copy, Debug, PartialEq, Eq, Hash, Structural)]
pub struct StoreId {
    pub type_key: u64,
    pub instance: u64,
}

impl StoreId {
    /// Identifier of the first (default) instance of a store type.
    pub fn new(type_key: u64) -> (id: StoreId)
        ensures
            id.type_key == type_key,
            id.instance == 0,
    {
        StoreId { type_key, instance: 0 }
    }

    /// Identifier of a specific instance of a store type.
    pub fn with_instance(type_key: u64, instance: u64) -> (id: StoreId)
        ensures
            id.type_key == type_key,
            id.instance == instance,
    {
        StoreId { type_key, instance }
    }
}

/// A store: a domain module with identity and a readable state.
///
/// Implemented by the users of the library for each of their stores.
pub trait Store: Clone + Send + Sync + 'static {
    /// The state the store holds.
    type State: Clone + Send + Sync + 'static;

    /// Whether `id` is an identifier `id` may report for this store. A
    /// store written outside verified code keeps this default: nothing is
    /// known of its identifier.
    closed spec fn has_id(&self, id: StoreId) -> bool {
        true
    }

    /// Whether `name` is a name `name` may report for this store. A store
    /// written outside verified code keeps this default: nothing is known
    /// of its name.
    closed spec fn has_name(&self, name: &'static str) -> bool {
        true
    }

    /// A snapshot of the current state.
    fn state(&self) -> Self::State;

    /// The store's unique identifier.
    fn id(&self) -> (r: StoreId)
        ensures
            self.has_id(r),
    ;

    /// The store's name, for debugging.
    fn name(&self) -> (r: &'static str)
        ensures
            self.has_name(r),
    ;
}

/// Errors reported by store operations.
#[derive(Clone, Debug, PartialEq, Eq)]
pub enum StoreError {
    /// A mutation was rejected or failed.
    MutationFailed(String),
    /// A store was looked up in a context where it was not provided.
    ContextNotAvailable(String),
    /// A store was not found.
    NotFound(String),
}

} // verus!
