//! Store composition: a dependency of one store on another that is
//! resolved later.

use vstd::prelude::*;
use crate::store::Store;

verus! {

/// A store another store depends on, resolved lazily.
pub struct StoreDependency<S: Store> {
    store: Option<S>,
}

impl<S: Store> Clone for StoreDependency<S> {
    fn clone(&self) -> (r: Self)
        ensures
            r.store_spec() is Some == self.store_spec() is Some,
    {
        StoreDependency {
            store: match &self.store {
                Some(s) => Some(s.clone()),
                None => None,
            },
        }
    }
}

impl<S: Store> StoreDependency<S> {
    /// The store, once resolved.
    pub closed spec fn store_spec(&self) -> Option<S> {
        self.store
    }

    /// An unresolved dependency.
    pub fn new() -> (d: Self)
        ensures
            d.store_spec() is None,
    {
        StoreDependency { store: None }
    }

    /// A dependency resolved to `store`.
    pub fn resolved(store: S) -> (d: Self)
        ensures
            d.store_spec() == Some(store),
    {
        StoreDependency { store: Some(store) }
    }

    /// Resolve the dependency to `store`, replacing any earlier store.
    pub fn resolve(&mut self, store: S)
        ensures
            final(self).store_spec() == Some(store),
    {
        self.store = Some(store);
    }

    /// The store, if resolved.
    pub fn get(&self) -> (r: Option<&S>)
        ensures
            match self.store_spec() {
                Some(s) => r == Some(&s),
                None => r is None,
            },
    {
        match &self.store {
            Some(s) => Some(s),
            None => None,
        }
    }

    /// Whether the dependency is resolved.
    pub fn is_resolved(&self) -> (r: bool)
        ensures
            r == self.store_spec() is Some,
    {
        self.store.is_some()
    }

    /// The store of a resolved dependency.
    pub fn expect(&self) -> (r: &S)
        requires
            self.store_spec() is Some,
        ensures
            *r == self.store_spec()->0,
    {
        self.store.as_ref().unwrap()
    }
}

impl<S: Store> Default for StoreDependency<S> {
    fn default() -> (d: Self)
        ensures
            d.store_spec() is None,
    {
        StoreDependency::new()
    }
}

} // verus!
