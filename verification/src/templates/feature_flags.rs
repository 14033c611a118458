//! Feature flags: a store of flags with local overrides, variants for
//! experiments and the loading status of a remote flag source.
//!
//! A flag is enabled when an override says so, or, without an override,
//! when the flag itself is enabled; an unknown flag is disabled.

use vstd::prelude::*;
use vstd::string::StringExecFns;
use crate::keyed_map::KeyedMap;
use crate::store::{Store, StoreId};
use crate::text::{StringMap, same_text};

verus! {

// ============================================================================
// Flags and user context
// ============================================================================

/// The view of an optional string.
pub open spec fn opt_view(s: Option<String>) -> Option<Seq<char>> {
    match s {
        Some(t) => Some(t@),
        None => None,
    }
}

fn clone_opt(s: &Option<String>) -> (r: Option<String>)
    ensures
        opt_view(r) == opt_view(*s),
{
    match s {
        Some(t) => Some(t.clone()),
        None => None,
    }
}

/// A feature flag.
#[derive(Debug)]
pub struct FeatureFlag {
    /// Unique key of the flag.
    pub key: String,
    /// Whether the flag is enabled.
    pub enabled: bool,
    /// Variant for A/B tests.
    pub variant: Option<String>,
    /// Additional metadata.
    pub metadata: StringMap,
    /// Description.
    pub description: Option<String>,
}

impl FeatureFlag {
    /// Two flags with the same key, switch, variant, description and
    /// metadata.
    pub open spec fn same_as(&self, other: FeatureFlag) -> bool {
        &&& self.key@ == other.key@
        &&& self.enabled == other.enabled
        &&& opt_view(self.variant) == opt_view(other.variant)
        &&& opt_view(self.description) == opt_view(other.description)
        &&& self.metadata.contents() == other.metadata.contents()
        &&& self.metadata@ == other.metadata@
    }

    /// A flag with no variant, description or metadata.
    pub fn new(key: &str, enabled: bool) -> (f: FeatureFlag)
        ensures
            f.key@ == key@,
            f.enabled == enabled,
            f.variant is None,
            f.description is None,
            f.metadata.wf(),
            f.metadata@ == Map::<Seq<char>, Seq<char>>::empty(),
    {
        FeatureFlag {
            key: key.to_owned(),
            enabled,
            variant: None,
            metadata: StringMap::new(),
            description: None,
        }
    }

    /// A flag with a variant.
    pub fn with_variant(key: &str, enabled: bool, variant: &str) -> (f: FeatureFlag)
        ensures
            f.key@ == key@,
            f.enabled == enabled,
            opt_view(f.variant) == Some(variant@),
            f.description is None,
            f.metadata.wf(),
            f.metadata@ == Map::<Seq<char>, Seq<char>>::empty(),
    {
        FeatureFlag {
            key: key.to_owned(),
            enabled,
            variant: Some(variant.to_owned()),
            metadata: StringMap::new(),
            description: None,
        }
    }

    /// Set the description.
    pub fn with_description(self, description: &str) -> (f: FeatureFlag)
        ensures
            f.key == self.key,
            f.enabled == self.enabled,
            f.variant == self.variant,
            f.metadata == self.metadata,
            opt_view(f.description) == Some(description@),
    {
        FeatureFlag { description: Some(description.to_owned()), ..self }
    }

    /// Add a metadata entry.
    pub fn with_metadata(self, key: &str, value: &str) -> (f: FeatureFlag)
        requires
            self.metadata.wf(),
        ensures
            f.key == self.key,
            f.enabled == self.enabled,
            f.variant == self.variant,
            f.description == self.description,
            f.metadata.wf(),
            f.metadata@ == self.metadata@.insert(key@, value@),
    {
        let mut f = self;
        f.metadata.insert(key.to_owned(), value.to_owned());
        f
    }
}

impl Clone for FeatureFlag {
    fn clone(&self) -> (r: Self)
        ensures
            r.same_as(*self),
    {
        FeatureFlag {
            key: self.key.clone(),
            enabled: self.enabled,
            variant: clone_opt(&self.variant),
            metadata: self.metadata.clone(),
            description: clone_opt(&self.description),
        }
    }
}

/// The user a flag is evaluated for.
#[derive(Debug, Default)]
pub struct UserContext {
    /// User ID (if authenticated).
    pub user_id: Option<String>,
    /// User email.
    pub email: Option<String>,
    /// Custom attributes for targeting.
    pub attributes: StringMap,
    /// Environment (development, staging, production).
    pub environment: Option<String>,
}

impl UserContext {
    /// An anonymous context.
    pub fn new() -> (c: UserContext)
        ensures
            c.user_id is None,
            c.email is None,
            c.environment is None,
            c.attributes.wf(),
            c.attributes@ == Map::<Seq<char>, Seq<char>>::empty(),
    {
        UserContext { user_id: None, email: None, attributes: StringMap::new(), environment: None }
    }

    /// The context of an authenticated user.
    pub fn authenticated(user_id: &str) -> (c: UserContext)
        ensures
            opt_view(c.user_id) == Some(user_id@),
            c.email is None,
            c.environment is None,
            c.attributes.wf(),
            c.attributes@ == Map::<Seq<char>, Seq<char>>::empty(),
    {
        UserContext { user_id: Some(user_id.to_owned()), ..UserContext::new() }
    }

    /// Set the user ID.
    pub fn with_user_id(self, id: &str) -> (c: UserContext)
        ensures
            opt_view(c.user_id) == Some(id@),
            c.email == self.email,
            c.environment == self.environment,
            c.attributes == self.attributes,
    {
        UserContext { user_id: Some(id.to_owned()), ..self }
    }

    /// Set the email.
    pub fn with_email(self, email: &str) -> (c: UserContext)
        ensures
            opt_view(c.email) == Some(email@),
            c.user_id == self.user_id,
            c.environment == self.environment,
            c.attributes == self.attributes,
    {
        UserContext { email: Some(email.to_owned()), ..self }
    }

    /// Set the environment.
    pub fn with_environment(self, env: &str) -> (c: UserContext)
        ensures
            opt_view(c.environment) == Some(env@),
            c.user_id == self.user_id,
            c.email == self.email,
            c.attributes == self.attributes,
    {
        UserContext { environment: Some(env.to_owned()), ..self }
    }

    /// Add a targeting attribute.
    pub fn with_attribute(self, key: &str, value: &str) -> (c: UserContext)
        requires
            self.attributes.wf(),
        ensures
            c.attributes.wf(),
            c.attributes@ == self.attributes@.insert(key@, value@),
            c.user_id == self.user_id,
            c.email == self.email,
            c.environment == self.environment,
    {
        let mut c = self;
        c.attributes.insert(key.to_owned(), value.to_owned());
        c
    }
}

// ============================================================================
// Errors
// ============================================================================

/// Errors of the feature flag system.
#[derive(Debug, PartialEq, Eq)]
pub enum FlagError {
    /// Flag not found.
    NotFound(String),
    /// Failed to fetch flags.
    FetchFailed(String),
    /// Invalid configuration.
    InvalidConfig(String),
    /// Network error.
    Network(String),
}

impl Clone for FlagError {
    fn clone(&self) -> (r: Self)
        ensures
            r == *self,
    {
        match self {
            FlagError::NotFound(s) => FlagError::NotFound(s.clone()),
            FlagError::FetchFailed(s) => FlagError::FetchFailed(s.clone()),
            FlagError::InvalidConfig(s) => FlagError::InvalidConfig(s.clone()),
            FlagError::Network(s) => FlagError::Network(s.clone()),
        }
    }
}

impl FlagError {
    /// The text of the error message.
    pub open spec fn message_spec(&self) -> Seq<char> {
        match self {
            FlagError::NotFound(s) => "Flag not found: "@ + s@,
            FlagError::FetchFailed(s) => "Failed to fetch flags: "@ + s@,
            FlagError::InvalidConfig(s) => "Invalid flag configuration: "@ + s@,
            FlagError::Network(s) => "Network error: "@ + s@,
        }
    }

    /// The human-readable error message.
    pub fn message(&self) -> (r: String)
        ensures
            r@ == self.message_spec(),
    {
        match self {
            FlagError::NotFound(s) => String::from_str("Flag not found: ").concat(s.as_str()),
            FlagError::FetchFailed(s) => String::from_str("Failed to fetch flags: ").concat(s.as_str()),
            FlagError::InvalidConfig(s) => String::from_str("Invalid flag configuration: ").concat(
                s.as_str(),
            ),
            FlagError::Network(s) => String::from_str("Network error: ").concat(s.as_str()),
        }
    }
}

// ============================================================================
// State
// ============================================================================

/// Whether `key` is enabled: an override decides first, then the flag;
/// an unknown flag is disabled.
pub open spec fn flag_enabled(flags: Map<Seq<char>, FeatureFlag>, overrides: Map<Seq<char>, bool>, key: Seq<char>) -> bool {
    if overrides.contains_key(key) {
        overrides[key]
    } else if flags.contains_key(key) {
        flags[key].enabled
    } else {
        false
    }
}

/// The flags of a list by key; a later flag with the same key replaces an
/// earlier one.
pub open spec fn flags_by_key(flags: Seq<FeatureFlag>) -> Map<Seq<char>, FeatureFlag>
    decreases flags.len(),
{
    if flags.len() == 0 {
        Map::empty()
    } else {
        flags_by_key(flags.drop_last()).insert(flags.last().key@, flags.last())
    }
}

/// Every flag is stored under its own key.
pub open spec fn keyed_by_own_key(flags: Map<Seq<char>, FeatureFlag>) -> bool {
    forall|k: Seq<char>| #[trigger] flags.contains_key(k) ==> flags[k].key@ == k
}

/// `f` with its switch set to `on`.
pub open spec fn with_switch(f: FeatureFlag, on: bool) -> FeatureFlag {
    FeatureFlag { enabled: on, ..f }
}

proof fn lemma_flags_by_key_own_key(flags: Seq<FeatureFlag>)
    ensures
        keyed_by_own_key(flags_by_key(flags)),
    decreases flags.len(),
{
    if flags.len() > 0 {
        lemma_flags_by_key_own_key(flags.drop_last());
    }
}

/// The state of the feature flag store.
#[derive(Debug)]
pub struct FeatureFlagState {
    flags: KeyedMap<FeatureFlag>,
    overrides: KeyedMap<bool>,
    loaded: bool,
    error: Option<FlagError>,
    loading: bool,
}

impl Default for FeatureFlagState {
    fn default() -> (s: Self)
        ensures
            s.wf(),
            s.flags_spec() == Map::<Seq<char>, FeatureFlag>::empty(),
            s.overrides_spec() == Map::<Seq<char>, bool>::empty(),
    {
        FeatureFlagState::new()
    }
}

impl Clone for FeatureFlagState {
    fn clone(&self) -> (r: Self)
        ensures
            self.wf() ==> r.wf() && r.same_state(*self),
    {
        let error = match &self.error {
            Some(e) => Some(e.clone()),
            None => None,
        };
        let r = FeatureFlagState {
            flags: self.flags.copy(),
            overrides: self.overrides.copy(),
            loaded: self.loaded,
            error,
            loading: self.loading,
        };
        proof {
            if self.wf() {
                assert forall|k: Seq<char>| #[trigger] r.flags@.contains_key(k) implies r.flags@[k].same_as(
                    self.flags@[k],
                ) && r.flags@[k].key@ == k by {
                    assert(cloned(self.flags@[k], r.flags@[k]));
                }
                assert forall|k: Seq<char>| #[trigger] r.overrides@.contains_key(k) implies r.overrides@[k]
                    == self.overrides@[k] by {
                    assert(cloned(self.overrides@[k], r.overrides@[k]));
                }
                assert(r.overrides@ =~= self.overrides@);
            }
        }
        r
    }
}

impl FeatureFlagState {
    /// Whether `self` holds what `other` holds: the same flags (each the
    /// same as the other's), overrides, loading status and error.
    pub open spec fn same_state(&self, other: FeatureFlagState) -> bool {
        &&& self.flags_spec().dom() == other.flags_spec().dom()
        &&& forall|k: Seq<char>| #[trigger]
            self.flags_spec().contains_key(k) ==> self.flags_spec()[k].same_as(other.flags_spec()[k])
        &&& self.overrides_spec() == other.overrides_spec()
        &&& self.loaded_spec() == other.loaded_spec()
        &&& self.loading_spec() == other.loading_spec()
        &&& self.error_spec() == other.error_spec()
    }
}

impl FeatureFlagState {
    /// The flags by key.
    pub closed spec fn flags_spec(&self) -> Map<Seq<char>, FeatureFlag> {
        self.flags@
    }

    /// The local overrides by key.
    pub closed spec fn overrides_spec(&self) -> Map<Seq<char>, bool> {
        self.overrides@
    }

    /// Whether flags were loaded.
    pub closed spec fn loaded_spec(&self) -> bool {
        self.loaded
    }

    /// Whether flags are being loaded.
    pub closed spec fn loading_spec(&self) -> bool {
        self.loading
    }

    /// The last loading error.
    pub closed spec fn error_spec(&self) -> Option<FlagError> {
        self.error
    }

    /// Internal consistency: both indexes well formed, every flag under
    /// its own key.
    pub closed spec fn wf(&self) -> bool {
        &&& self.flags.wf()
        &&& self.overrides.wf()
        &&& keyed_by_own_key(self.flags@)
    }

    /// No flags, no overrides, nothing loaded.
    pub fn new() -> (s: FeatureFlagState)
        ensures
            s.wf(),
            s.flags_spec() == Map::<Seq<char>, FeatureFlag>::empty(),
            s.overrides_spec() == Map::<Seq<char>, bool>::empty(),
            !s.loaded_spec(),
            !s.loading_spec(),
            s.error_spec() is None,
    {
        FeatureFlagState {
            flags: KeyedMap::new(),
            overrides: KeyedMap::new(),
            loaded: false,
            error: None,
            loading: false,
        }
    }

    /// Whether the flag `key` is enabled.
    pub fn is_enabled(&self, key: &str) -> (r: bool)
        requires
            self.wf(),
        ensures
            r == flag_enabled(self.flags_spec(), self.overrides_spec(), key@),
    {
        if let Some(v) = self.overrides.get(key) {
            return *v;
        }
        match self.flags.get(key) {
            Some(f) => f.enabled,
            None => false,
        }
    }

    /// The variant of the flag `key`, if the flag exists and has one.
    pub fn get_variant(&self, key: &str) -> (r: Option<String>)
        requires
            self.wf(),
        ensures
            opt_view(r) == if self.flags_spec().contains_key(key@) {
                opt_view(self.flags_spec()[key@].variant)
            } else {
                None
            },
    {
        match self.flags.get(key) {
            Some(f) => clone_opt(&f.variant),
            None => None,
        }
    }

    /// The flag `key`.
    pub fn get_flag(&self, key: &str) -> (r: Option<&FeatureFlag>)
        requires
            self.wf(),
        ensures
            match r {
                Some(f) => self.flags_spec().contains_key(key@) && self.flags_spec()[key@] == *f,
                None => !self.flags_spec().contains_key(key@),
            },
    {
        self.flags.get(key)
    }

    /// Set the switch of the flag `key`, if it exists.
    fn switch(&mut self, key: &str, on: bool)
        requires
            old(self).wf(),
        ensures
            final(self).wf(),
            final(self).flags_spec().dom() == old(self).flags_spec().dom(),
            old(self).flags_spec().contains_key(key@) ==> final(self).flags_spec()[key@].same_as(
                with_switch(old(self).flags_spec()[key@], on),
            ),
            forall|k: Seq<char>|
                k != key@ && #[trigger] old(self).flags_spec().contains_key(k)
                    ==> final(self).flags_spec()[k] == old(self).flags_spec()[k],
            final(self).overrides_spec() == old(self).overrides_spec(),
            final(self).loaded_spec() == old(self).loaded_spec(),
            final(self).loading_spec() == old(self).loading_spec(),
            final(self).error_spec() == old(self).error_spec(),
    {
        let updated = match self.flags.get(key) {
            Some(f) => {
                let mut g = f.clone();
                g.enabled = on;
                Some(g)
            },
            None => None,
        };
        match updated {
            Some(g) => {
                let ghost before = self.flags@;
                self.flags.insert(key.to_owned(), g);
                proof {
                    assert(self.flags@.dom() =~= before.dom());
                    assert forall|k: Seq<char>| #[trigger] self.flags@.contains_key(k) implies self.flags@[k].key@ == k by {
                        if k != key@ {
                            assert(before.contains_key(k));
                        }
                    }
                }
            },
            None => {},
        }
    }
}

// ============================================================================
// Store
// ============================================================================

/// A store of feature flags.
#[derive(Debug)]
pub struct FeatureFlagStore {
    state: FeatureFlagState,
}

impl Default for FeatureFlagStore {
    fn default() -> (s: Self)
        ensures
            s.wf(),
            s.flags_spec() == Map::<Seq<char>, FeatureFlag>::empty(),
            s.overrides_spec() == Map::<Seq<char>, bool>::empty(),
    {
        FeatureFlagStore::new()
    }
}

impl Clone for FeatureFlagStore {
    fn clone(&self) -> (r: Self) {
        FeatureFlagStore { state: self.state.clone() }
    }
}

impl FeatureFlagStore {
    /// The state.
    pub closed spec fn state_spec(&self) -> FeatureFlagState {
        self.state
    }

    /// The flags by key.
    pub open spec fn flags_spec(&self) -> Map<Seq<char>, FeatureFlag> {
        self.state_spec().flags_spec()
    }

    /// The overrides by key.
    pub open spec fn overrides_spec(&self) -> Map<Seq<char>, bool> {
        self.state_spec().overrides_spec()
    }

    /// Internal consistency.
    pub open spec fn wf(&self) -> bool {
        self.state_spec().wf()
    }

    /// Whether `key` is enabled, as the store sees it.
    pub open spec fn enabled_spec(&self, key: Seq<char>) -> bool {
        flag_enabled(self.flags_spec(), self.overrides_spec(), key)
    }

    /// Nothing but the flags changed.
    pub open spec fn only_flags_changed(&self, old: FeatureFlagStore) -> bool {
        &&& self.overrides_spec() == old.overrides_spec()
        &&& self.state_spec().loaded_spec() == old.state_spec().loaded_spec()
        &&& self.state_spec().loading_spec() == old.state_spec().loading_spec()
        &&& self.state_spec().error_spec() == old.state_spec().error_spec()
    }

    /// Nothing but the overrides changed.
    pub open spec fn only_overrides_changed(&self, old: FeatureFlagStore) -> bool {
        &&& self.flags_spec() == old.flags_spec()
        &&& self.state_spec().loaded_spec() == old.state_spec().loaded_spec()
        &&& self.state_spec().loading_spec() == old.state_spec().loading_spec()
        &&& self.state_spec().error_spec() == old.state_spec().error_spec()
    }

    /// A store with no flags.
    pub fn new() -> (s: FeatureFlagStore)
        ensures
            s.wf(),
            s.flags_spec() == Map::<Seq<char>, FeatureFlag>::empty(),
            s.overrides_spec() == Map::<Seq<char>, bool>::empty(),
            !s.state_spec().loaded_spec(),
            !s.state_spec().loading_spec(),
            s.state_spec().error_spec() is None,
    {
        FeatureFlagStore { state: FeatureFlagState::new() }
    }

    /// A store loaded with `flags`.
    pub fn with_flags(flags: Vec<FeatureFlag>) -> (s: FeatureFlagStore)
        ensures
            s.wf(),
            s.flags_spec() == flags_by_key(flags@),
            s.overrides_spec() == Map::<Seq<char>, bool>::empty(),
            s.state_spec().loaded_spec(),
            !s.state_spec().loading_spec(),
            s.state_spec().error_spec() is None,
    {
        let mut s = FeatureFlagStore::new();
        s.set_flags(flags);
        s
    }

    /// Whether the flag `key` is enabled.
    pub fn is_enabled(&self, key: &str) -> (r: bool)
        requires
            self.wf(),
        ensures
            r == self.enabled_spec(key@),
    {
        self.state.is_enabled(key)
    }

    /// The variant of the flag `key`.
    pub fn get_variant(&self, key: &str) -> (r: Option<String>)
        requires
            self.wf(),
        ensures
            opt_view(r) == if self.flags_spec().contains_key(key@) {
                opt_view(self.flags_spec()[key@].variant)
            } else {
                None
            },
    {
        self.state.get_variant(key)
    }

    /// The keys of all flags, each once.
    pub fn flag_keys(&self) -> (r: Vec<String>)
        requires
            self.wf(),
        ensures
            r@.map_values(|k: String| k@).to_set() == self.flags_spec().dom(),
            r@.map_values(|k: String| k@).no_duplicates(),
            r@.len() == self.flags_spec().dom().len(),
            forall|j: int| 0 <= j < r@.len() ==> self.flags_spec().contains_key(#[trigger] r@[j]@),
    {
        proof {
            self.state.flags.lemma_key_order();
        }
        let r = self.state.flags.keys();
        proof {
            assert forall|j: int| 0 <= j < r@.len() implies self.flags_spec().contains_key(
                #[trigger] r@[j]@,
            ) by {
                let kv = r@.map_values(|k: String| k@);
                assert(kv[j] == r@[j]@);
                assert(kv.to_set().contains(kv[j]));
            }
        }
        r
    }

    /// All flags, one per key.
    pub fn all_flags(&self) -> (r: Vec<FeatureFlag>)
        requires
            self.wf(),
        ensures
            r@.len() == self.flags_spec().dom().len(),
            forall|i: int|
                0 <= i < r@.len() ==> self.flags_spec().contains_key(#[trigger] r@[i].key@)
                    && r@[i].same_as(self.flags_spec()[r@[i].key@]),
    {
        let keys = self.flag_keys();
        let mut r: Vec<FeatureFlag> = Vec::new();
        let mut i: usize = 0;
        while i < keys.len()
            invariant
                self.wf(),
                i <= keys@.len(),
                r@.len() == i,
                forall|j: int| 0 <= j < keys@.len() ==> self.flags_spec().contains_key(#[trigger] keys@[j]@),
                forall|j: int|
                    0 <= j < i ==> self.flags_spec().contains_key(#[trigger] r@[j].key@)
                        && r@[j].same_as(self.flags_spec()[r@[j].key@]),
            decreases keys.len() - i,
        {
            proof {
                assert(self.flags_spec().contains_key(keys@[i as int]@));
            }
            match self.state.flags.get(keys[i].as_str()) {
                Some(flag) => {
                    let c = flag.clone();
                    r.push(c);
                },
                None => {
                    r.push(FeatureFlag::new("", false));
                },
            }
            i = i + 1;
        }
        r
    }

    /// The flag `key`.
    pub fn get_flag(&self, key: &str) -> (r: Option<FeatureFlag>)
        requires
            self.wf(),
        ensures
            match r {
                Some(f) => self.flags_spec().contains_key(key@) && f.same_as(self.flags_spec()[key@]),
                None => !self.flags_spec().contains_key(key@),
            },
    {
        match self.state.get_flag(key) {
            Some(f) => Some(f.clone()),
            None => None,
        }
    }

    /// Whether flags were loaded.
    pub fn is_loaded(&self) -> (r: bool)
        ensures
            r == self.state_spec().loaded_spec(),
    {
        self.state.loaded
    }

    /// Whether flags are being loaded.
    pub fn is_loading(&self) -> (r: bool)
        ensures
            r == self.state_spec().loading_spec(),
    {
        self.state.loading
    }

    /// The last loading error.
    pub fn error(&self) -> (r: Option<FlagError>)
        ensures
            r == self.state_spec().error_spec(),
    {
        match &self.state.error {
            Some(e) => Some(e.clone()),
            None => None,
        }
    }

    /// The overrides.
    pub fn overrides(&self) -> (r: KeyedMap<bool>)
        requires
            self.wf(),
        ensures
            r.wf(),
            r@ == self.overrides_spec(),
    {
        let r = self.state.overrides.copy();
        proof {
            assert(r@ =~= self.overrides_spec());
        }
        r
    }

    /// Replace all flags with `flags` (a later flag replaces an earlier one
    /// with the same key); the store is then loaded and has no error.
    pub fn set_flags(&mut self, flags: Vec<FeatureFlag>)
        requires
            old(self).wf(),
        ensures
            final(self).wf(),
            final(self).flags_spec() == flags_by_key(flags@),
            final(self).overrides_spec() == old(self).overrides_spec(),
            final(self).state_spec().loaded_spec(),
            final(self).state_spec().loading_spec() == old(self).state_spec().loading_spec(),
            final(self).state_spec().error_spec() is None,
    {
        let ghost all = flags@;
        let mut rest = flags;
        let mut map: KeyedMap<FeatureFlag> = KeyedMap::new();
        let n = rest.len();
        let mut i: usize = 0;
        proof {
            assert(all.take(0) =~= Seq::<FeatureFlag>::empty());
            assert(rest@ =~= all.skip(0));
        }
        while i < n
            invariant
                n == all.len(),
                i <= n,
                rest@ == all.skip(i as int),
                map.wf(),
                map@ == flags_by_key(all.take(i as int)),
            decreases n - i,
        {
            let f = rest.remove(0);
            proof {
                assert(f == all[i as int]);
                assert(all.take(i + 1).drop_last() =~= all.take(i as int));
                assert(all.take(i + 1).last() == all[i as int]);
            }
            let key = f.key.clone();
            map.insert(key, f);
            i = i + 1;
            proof {
                assert(rest@ =~= all.skip(i as int));
            }
        }
        proof {
            assert(all.take(n as int) =~= all);
            lemma_flags_by_key_own_key(all);
        }
        self.state.flags = map;
        self.state.loaded = true;
        self.state.error = None;
    }

    /// Add or replace one flag, under its key.
    pub fn set_flag(&mut self, flag: FeatureFlag)
        requires
            old(self).wf(),
        ensures
            final(self).wf(),
            final(self).flags_spec() == old(self).flags_spec().insert(flag.key@, flag),
            final(self).only_flags_changed(*old(self)),
    {
        let key = flag.key.clone();
        self.state.flags.insert(key, flag);
    }

    /// Remove the flag `key`.
    pub fn remove_flag(&mut self, key: &str)
        requires
            old(self).wf(),
        ensures
            final(self).wf(),
            final(self).flags_spec() == old(self).flags_spec().remove(key@),
            final(self).only_flags_changed(*old(self)),
    {
        self.state.flags.remove(key);
    }

    /// Override the flag `key` locally.
    pub fn set_override(&mut self, key: &str, enabled: bool)
        requires
            old(self).wf(),
        ensures
            final(self).wf(),
            final(self).overrides_spec() == old(self).overrides_spec().insert(key@, enabled),
            final(self).only_overrides_changed(*old(self)),
    {
        self.state.overrides.insert(key.to_owned(), enabled);
    }

    /// Remove the override of `key`.
    pub fn remove_override(&mut self, key: &str)
        requires
            old(self).wf(),
        ensures
            final(self).wf(),
            final(self).overrides_spec() == old(self).overrides_spec().remove(key@),
            final(self).only_overrides_changed(*old(self)),
    {
        self.state.overrides.remove(key);
    }

    /// Remove every override.
    pub fn clear_overrides(&mut self)
        requires
            old(self).wf(),
        ensures
            final(self).wf(),
            final(self).overrides_spec() == Map::<Seq<char>, bool>::empty(),
            final(self).only_overrides_changed(*old(self)),
    {
        self.state.overrides.clear();
    }

    /// Mark flags as being loaded, or not.
    pub fn set_loading(&mut self, loading: bool)
        ensures
            final(self).wf() == old(self).wf(),
            final(self).flags_spec() == old(self).flags_spec(),
            final(self).overrides_spec() == old(self).overrides_spec(),
            final(self).state_spec().loaded_spec() == old(self).state_spec().loaded_spec(),
            final(self).state_spec().loading_spec() == loading,
            final(self).state_spec().error_spec() == old(self).state_spec().error_spec(),
    {
        self.state.loading = loading;
    }

    /// Set or clear the loading error; loading stops either way.
    pub fn set_error(&mut self, error: Option<FlagError>)
        ensures
            final(self).wf() == old(self).wf(),
            final(self).flags_spec() == old(self).flags_spec(),
            final(self).overrides_spec() == old(self).overrides_spec(),
            final(self).state_spec().loaded_spec() == old(self).state_spec().loaded_spec(),
            !final(self).state_spec().loading_spec(),
            final(self).state_spec().error_spec() == error,
    {
        self.state.error = error;
        self.state.loading = false;
    }

    /// Remove every flag; the store is no longer loaded. Overrides stay.
    pub fn clear(&mut self)
        requires
            old(self).wf(),
        ensures
            final(self).wf(),
            final(self).flags_spec() == Map::<Seq<char>, FeatureFlag>::empty(),
            final(self).overrides_spec() == old(self).overrides_spec(),
            !final(self).state_spec().loaded_spec(),
            final(self).state_spec().loading_spec() == old(self).state_spec().loading_spec(),
            final(self).state_spec().error_spec() == old(self).state_spec().error_spec(),
    {
        self.state.flags.clear();
        self.state.loaded = false;
    }

    /// Switch the flag `key` on, if it exists.
    pub fn enable(&mut self, key: &str)
        requires
            old(self).wf(),
        ensures
            final(self).wf(),
            final(self).flags_spec().dom() == old(self).flags_spec().dom(),
            old(self).flags_spec().contains_key(key@) ==> final(self).flags_spec()[key@].same_as(
                with_switch(old(self).flags_spec()[key@], true),
            ),
            forall|k: Seq<char>|
                k != key@ && #[trigger] old(self).flags_spec().contains_key(k)
                    ==> final(self).flags_spec()[k] == old(self).flags_spec()[k],
            final(self).only_flags_changed(*old(self)),
    {
        self.state.switch(key, true);
    }

    /// Switch the flag `key` off, if it exists.
    pub fn disable(&mut self, key: &str)
        requires
            old(self).wf(),
        ensures
            final(self).wf(),
            final(self).flags_spec().dom() == old(self).flags_spec().dom(),
            old(self).flags_spec().contains_key(key@) ==> final(self).flags_spec()[key@].same_as(
                with_switch(old(self).flags_spec()[key@], false),
            ),
            forall|k: Seq<char>|
                k != key@ && #[trigger] old(self).flags_spec().contains_key(k)
                    ==> final(self).flags_spec()[k] == old(self).flags_spec()[k],
            final(self).only_flags_changed(*old(self)),
    {
        self.state.switch(key, false);
    }

    /// Flip the flag `key`, if it exists.
    pub fn toggle(&mut self, key: &str)
        requires
            old(self).wf(),
        ensures
            final(self).wf(),
            final(self).flags_spec().dom() == old(self).flags_spec().dom(),
            old(self).flags_spec().contains_key(key@) ==> final(self).flags_spec()[key@].same_as(
                with_switch(old(self).flags_spec()[key@], !old(self).flags_spec()[key@].enabled),
            ),
            forall|k: Seq<char>|
                k != key@ && #[trigger] old(self).flags_spec().contains_key(k)
                    ==> final(self).flags_spec()[k] == old(self).flags_spec()[k],
            final(self).only_flags_changed(*old(self)),
    {
        let on = match self.state.flags.get(key) {
            Some(f) => !f.enabled,
            None => false,
        };
        self.state.switch(key, on);
    }
}

impl Store for FeatureFlagStore {
    type State = FeatureFlagState;

    open spec fn has_id(&self, id: StoreId) -> bool {
        id == StoreId { type_key: FEATURE_FLAG_STORE_TYPE, instance: 0 }
    }

    open spec fn has_name(&self, name: &'static str) -> bool {
        name == "FeatureFlagStore"
    }

    fn state(&self) -> (r: FeatureFlagState)
        ensures
            self.wf() ==> r.wf() && r.same_state(self.state_spec()),
    {
        self.state.clone()
    }

    fn id(&self) -> (r: StoreId)
        ensures
            r.type_key == FEATURE_FLAG_STORE_TYPE,
            r.instance == 0,
    {
        StoreId::new(FEATURE_FLAG_STORE_TYPE)
    }

    fn name(&self) -> (r: &'static str)
        ensures
            r@ == "FeatureFlagStore"@,
    {
        "FeatureFlagStore"
    }
}

/// Type key of the feature flag store.
pub const FEATURE_FLAG_STORE_TYPE: u64 = 0x4645_4154_5552_4553;

/// Whether content guarded by `flag` is shown: when the flag is enabled,
/// or, with `invert`, when it is not.
pub fn feature_visible(store: &FeatureFlagStore, flag: &str, invert: bool) -> (r: bool)
    requires
        store.wf(),
    ensures
        r == (store.enabled_spec(flag@) != invert),
{
    let enabled = store.is_enabled(flag);
    if invert {
        !enabled
    } else {
        enabled
    }
}

/// Whether content for `variant` of `flag` is shown: when the flag exists
/// and has exactly that variant.
pub fn variant_matches(store: &FeatureFlagStore, flag: &str, variant: &str) -> (r: bool)
    requires
        store.wf(),
    ensures
        r == (store.flags_spec().contains_key(flag@) && opt_view(store.flags_spec()[flag@].variant)
            == Some(variant@)),
{
    match store.get_variant(flag) {
        Some(v) => same_text(v.as_str(), variant),
        None => false,
    }
}

/// An override decides whether a flag is enabled, whatever the flag says.
pub proof fn lemma_override_wins(
    flags: Map<Seq<char>, FeatureFlag>,
    overrides: Map<Seq<char>, bool>,
    key: Seq<char>,
    value: bool,
)
    ensures
        flag_enabled(flags, overrides.insert(key, value), key) == value,
{
}

/// Without an override, a flag is enabled exactly when it exists and is
/// switched on; removing an override returns to that.
pub proof fn lemma_without_override(
    flags: Map<Seq<char>, FeatureFlag>,
    overrides: Map<Seq<char>, bool>,
    key: Seq<char>,
)
    ensures
        flag_enabled(flags, overrides.remove(key), key) == (flags.contains_key(key)
            && flags[key].enabled),
        flag_enabled(flags, Map::empty(), key) == (flags.contains_key(key) && flags[key].enabled),
{
}

/// Switching a flag twice the other way restores it.
pub proof fn lemma_toggle_twice(f: FeatureFlag)
    ensures
        with_switch(with_switch(f, !f.enabled), !with_switch(f, !f.enabled).enabled).enabled
            == f.enabled,
{
}

} // verus!
