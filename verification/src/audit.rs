//! Audit trail for tracking state mutation history.
//!
//! An [`AuditTrail`] records before/after state snapshots for every
//! mutation, with optional field-level diffs and user context, keeps at most
//! a configured number of entries (dropping the oldest), and answers queries
//! by mutation name, timestamp or entry ID.

use vstd::prelude::*;
use vstd::string::StringExecFns;
use crate::text::StringMap;
pub use crate::clock::current_timestamp_ms;

verus! {

/// Computes field-level differences between two state snapshots.
///
/// Implemented by users on their state types.
pub trait StateDiff {
    /// Whether `changes` are changes `diff` may report from `self` to
    /// `other`. A state written outside verified code keeps this default:
    /// nothing is known of its diff.
    closed spec fn gives_diff(&self, other: &Self, changes: Seq<FieldChange>) -> bool {
        true
    }

    /// The changes from `self` (old state) to `other` (new state).
    fn diff(&self, other: &Self) -> (r: Vec<FieldChange>)
        ensures
            self.gives_diff(other, r@),
    ;
}

/// The type of change that occurred to a field.
#[derive(Debug, Clone, Copy, PartialEq, Eq, Hash, Structural)]
pub enum ChangeType {
    /// An existing field was modified.
    Modified,
    /// A new field was added.
    Added,
    /// A field was removed.
    Removed,
}

impl ChangeType {
    /// The name of the change type.
    pub open spec fn text(self) -> Seq<char> {
        match self {
            ChangeType::Modified => "Modified"@,
            ChangeType::Added => "Added"@,
            ChangeType::Removed => "Removed"@,
        }
    }

    /// The name of the change type, as displayed.
    pub fn display(&self) -> (r: String)
        ensures
            r@ == self.text(),
    {
        match self {
            ChangeType::Modified => String::from_str("Modified"),
            ChangeType::Added => String::from_str("Added"),
            ChangeType::Removed => String::from_str("Removed"),
        }
    }
}

/// A single field-level change record within a state mutation.
#[derive(Debug, PartialEq, Eq)]
pub struct FieldChange {
    /// Dot-separated path to the changed field (e.g. `"user.address.city"`).
    pub field_path: String,
    /// String representation of the old value.
    pub old_value: String,
    /// String representation of the new value.
    pub new_value: String,
    /// The type of change that occurred.
    pub change_type: ChangeType,
}

impl Clone for FieldChange {
    fn clone(&self) -> (r: Self)
        ensures
            r == *self,
    {
        FieldChange {
            field_path: self.field_path.clone(),
            old_value: self.old_value.clone(),
            new_value: self.new_value.clone(),
            change_type: self.change_type,
        }
    }
}

impl FieldChange {
    /// The displayed text of the change.
    pub open spec fn text(&self) -> Seq<char> {
        match self.change_type {
            ChangeType::Modified => self.field_path@ + ": '"@ + self.old_value@ + "' -> '"@
                + self.new_value@ + "'"@,
            ChangeType::Added => self.field_path@ + ": added '"@ + self.new_value@ + "'"@,
            ChangeType::Removed => self.field_path@ + ": removed '"@ + self.old_value@ + "'"@,
        }
    }

    /// Human-readable description: `path: 'old' -> 'new'`,
    /// `path: added 'new'` or `path: removed 'old'`.
    pub fn display(&self) -> (r: String)
        ensures
            r@ == self.text(),
    {
        let mut s = self.field_path.clone();
        match self.change_type {
            ChangeType::Modified => {
                s.append(": '");
                s.append(self.old_value.as_str());
                s.append("' -> '");
                s.append(self.new_value.as_str());
                s.append("'");
            },
            ChangeType::Added => {
                s.append(": added '");
                s.append(self.new_value.as_str());
                s.append("'");
            },
            ChangeType::Removed => {
                s.append(": removed '");
                s.append(self.old_value.as_str());
                s.append("'");
            },
        }
        s
    }
}

/// User identity and session context attached to audit entries.
#[derive(Debug, Default, PartialEq, Eq)]
pub struct AuditUserContext {
    /// The user identifier, if known.
    pub user_id: Option<String>,
    /// The session identifier, if known.
    pub session_id: Option<String>,
    /// The originating IP address, if known.
    pub ip_address: Option<String>,
    /// Additional key-value metadata.
    pub metadata: StringMap,
}

impl Clone for AuditUserContext {
    fn clone(&self) -> (r: Self)
        ensures
            r.same_as(self),
    {
        AuditUserContext {
            user_id: self.user_id.clone(),
            session_id: self.session_id.clone(),
            ip_address: self.ip_address.clone(),
            metadata: self.metadata.clone(),
        }
    }
}

impl AuditUserContext {
    /// Same identity fields and the same metadata.
    pub open spec fn same_as(&self, other: &AuditUserContext) -> bool {
        &&& self.user_id == other.user_id
        &&& self.session_id == other.session_id
        &&& self.ip_address == other.ip_address
        &&& self.metadata.contents() == other.metadata.contents()
        &&& self.metadata@ == other.metadata@
        &&& self.metadata.wf() == other.metadata.wf()
    }

    /// Create a new empty user context.
    pub fn new() -> (c: AuditUserContext)
        ensures
            c.user_id is None,
            c.session_id is None,
            c.ip_address is None,
            c.metadata.wf(),
            c.metadata@ == Map::<Seq<char>, Seq<char>>::empty(),
    {
        AuditUserContext { user_id: None, session_id: None, ip_address: None, metadata: StringMap::new() }
    }

    /// Set the user ID.
    pub fn with_user_id(self, user_id: &str) -> (c: AuditUserContext)
        ensures
            c.user_id matches Some(u) && u@ == user_id@,
            c.session_id == self.session_id,
            c.ip_address == self.ip_address,
            c.metadata == self.metadata,
    {
        let mut c = self;
        c.user_id = Some(user_id.to_owned());
        c
    }

    /// Set the session ID.
    pub fn with_session_id(self, session_id: &str) -> (c: AuditUserContext)
        ensures
            c.session_id matches Some(s) && s@ == session_id@,
            c.user_id == self.user_id,
            c.ip_address == self.ip_address,
            c.metadata == self.metadata,
    {
        let mut c = self;
        c.session_id = Some(session_id.to_owned());
        c
    }

    /// Set the IP address.
    pub fn with_ip_address(self, ip_address: &str) -> (c: AuditUserContext)
        ensures
            c.ip_address matches Some(a) && a@ == ip_address@,
            c.user_id == self.user_id,
            c.session_id == self.session_id,
            c.metadata == self.metadata,
    {
        let mut c = self;
        c.ip_address = Some(ip_address.to_owned());
        c
    }

    /// Add a metadata key-value pair.
    pub fn with_metadata(self, key: &str, value: &str) -> (c: AuditUserContext)
        requires
            self.metadata.wf(),
        ensures
            c.metadata.wf(),
            c.metadata@ == self.metadata@.insert(key@, value@),
            c.user_id == self.user_id,
            c.session_id == self.session_id,
            c.ip_address == self.ip_address,
    {
        let mut c = self;
        c.metadata.insert(key.to_owned(), value.to_owned());
        c
    }
}

/// A single audit record capturing a state mutation with full context.
#[derive(Debug)]
pub struct AuditEntry<State: Clone> {
    /// Unique monotonically increasing entry identifier.
    pub id: u64,
    /// Timestamp in milliseconds since the Unix epoch.
    pub timestamp: u64,
    /// The name of the mutation that was executed.
    pub mutation_name: String,
    /// The name of the action that triggered this mutation, if any.
    pub action_name: Option<String>,
    /// Complete state snapshot before the mutation.
    pub state_before: State,
    /// Complete state snapshot after the mutation.
    pub state_after: State,
    /// Field-level changes, if available.
    pub changes: Vec<FieldChange>,
    /// User context at the time of the mutation, if available.
    pub user_context: Option<AuditUserContext>,
    /// Correlation ID for distributed tracing.
    pub correlation_id: Option<String>,
}

impl<State: Clone> AuditEntry<State> {
    /// `self` records the same mutation as `other`, with cloned snapshots.
    pub open spec fn is_copy_of(&self, other: &AuditEntry<State>) -> bool {
        &&& self.id == other.id
        &&& self.timestamp == other.timestamp
        &&& self.mutation_name == other.mutation_name
        &&& self.action_name == other.action_name
        &&& self.changes@ == other.changes@
        &&& (self.user_context is Some <==> other.user_context is Some)
        &&& (self.user_context matches Some(c) ==> c.same_as(&other.user_context->0))
        &&& self.correlation_id == other.correlation_id
        &&& cloned(other.state_before, self.state_before)
        &&& cloned(other.state_after, self.state_after)
    }
}

impl<State: Clone> Clone for AuditEntry<State> {
    fn clone(&self) -> (r: Self)
        ensures
            r.is_copy_of(self),
    {
        let changes = self.changes.clone();
        proof {
            assert(changes@ =~= self.changes@) by {
                assert forall|i: int| 0 <= i < changes@.len() implies changes@[i] == self.changes@[i] by {
                    assert(cloned(self.changes[i], changes[i]));
                }
            }
        }
        let user_context = match &self.user_context {
            Some(c) => Some(c.clone()),
            None => None,
        };
        AuditEntry {
            id: self.id,
            timestamp: self.timestamp,
            mutation_name: self.mutation_name.clone(),
            action_name: self.action_name.clone(),
            state_before: self.state_before.clone(),
            state_after: self.state_after.clone(),
            changes,
            user_context,
            correlation_id: self.correlation_id.clone(),
        }
    }
}

/// Supplies the user context attached to each recorded entry.
pub trait UserContextProvider: Send + Sync {
    /// Whether `c` is a context this provider may give.
    spec fn gives(&self, c: AuditUserContext) -> bool;

    /// The current user context.
    fn current(&self) -> (r: AuditUserContext)
        ensures
            self.gives(r),
    ;
}

/// A user context provider made from a closure.
pub struct FnUserContextProvider<F: Fn() -> AuditUserContext> {
    f: F,
}

impl<F: Fn() -> AuditUserContext> FnUserContextProvider<F> {
    /// The wrapped closure.
    pub closed spec fn func(&self) -> F {
        self.f
    }

    #[verifier::type_invariant]
    spec fn callable(self) -> bool {
        self.f.requires(())
    }

    /// Wrap a closure.
    pub fn new(f: F) -> (p: Self)
        requires
            f.requires(()),
        ensures
            p.func() == f,
    {
        FnUserContextProvider { f }
    }
}

impl<F: Fn() -> AuditUserContext + Send + Sync> UserContextProvider for FnUserContextProvider<F> {
    open spec fn gives(&self, c: AuditUserContext) -> bool {
        self.func().ensures((), c)
    }

    fn current(&self) -> (r: AuditUserContext) {
        proof {
            use_type_invariant(self);
        }
        (self.f)()
    }
}

/// The user context provider a trail holds.
struct ProviderSlot {
    provider: Box<dyn UserContextProvider>,
}

/// `entries` after keeping only the newest `max` of them.
pub open spec fn keep_newest<T>(entries: Seq<T>, max: nat) -> Seq<T> {
    if entries.len() > max {
        entries.subrange(entries.len() - max, entries.len() as int)
    } else {
        entries
    }
}

/// `events` after adding one and, when that makes more than `max`,
/// dropping the oldest.
pub open spec fn push_trimmed<T>(events: Seq<T>, event: T, max: nat) -> Seq<T> {
    let pushed = events.push(event);
    if pushed.len() > max {
        pushed.drop_first()
    } else {
        pushed
    }
}

/// Adding to a history within its limit and trimming one entry keeps it
/// within the limit: it holds the newest entries, the added one last.
pub proof fn lemma_push_trimmed_bounded<T>(entries: Seq<T>, entry: T, max: nat)
    requires
        entries.len() <= max,
    ensures
        push_trimmed(entries, entry, max).len() <= max,
        push_trimmed(entries, entry, max) == keep_newest(entries.push(entry), max),
        max > 0 ==> push_trimmed(entries, entry, max).last() == entry,
{
    let pushed = entries.push(entry);
    if pushed.len() > max {
        assert(pushed.drop_first() =~= pushed.subrange(pushed.len() - max, pushed.len() as int));
    }
}

/// Append `entry` to `list`, keeping only the newest `max` items.
fn push_newest<T>(list: &mut Vec<T>, entry: T, max: usize)
    ensures
        final(list)@ == keep_newest(old(list)@.push(entry), max as nat),
        final(list)@.len() <= max,
{
    list.push(entry);
    if list.len() > max {
        let excess = list.len() - max;
        let kept = list.split_off(excess);
        *list = kept;
    }
}

/// Records state mutation history.
///
/// Keeps up to `max_entries` entries (1000 by default); when the limit is
/// exceeded the oldest entries are removed. IDs start at 1 and grow by one
/// per recorded entry.
pub struct AuditTrail<State: Clone + Send + Sync + 'static> {
    entries: Vec<AuditEntry<State>>,
    next_id: u64,
    max_entries: usize,
    user_context_provider: Option<ProviderSlot>,
    wrapped: Ghost<bool>,
}

impl<State: Clone + Send + Sync + 'static> Default for AuditTrail<State> {
    fn default() -> (t: Self)
        ensures
            t.entry_seq().len() == 0,
            t.next_entry_id() == 1,
            t.max_len() == 1000,
            !t.has_provider(),
            t.ids_ascending(),
            !t.counter_wrapped(),
    {
        AuditTrail::new()
    }
}

impl<State: Clone + Send + Sync + 'static> AuditTrail<State> {
    /// The stored entries, oldest first.
    pub closed spec fn entry_seq(&self) -> Seq<AuditEntry<State>> {
        self.entries@
    }

    /// The ID the next recorded entry receives.
    pub closed spec fn next_entry_id(&self) -> u64 {
        self.next_id
    }

    /// The maximum number of retained entries.
    pub closed spec fn max_len(&self) -> nat {
        self.max_entries as nat
    }

    /// Entry IDs increase from oldest to newest, unless the ID counter has
    /// gone past `u64::MAX` and started again.
    #[verifier::type_invariant]
    spec fn ids_in_order(&self) -> bool {
        self.wrapped@ || self.ids_ascending()
    }

    /// Whether the ID counter has gone past `u64::MAX` and started again
    /// (after more than 2^64 recordings).
    pub closed spec fn counter_wrapped(&self) -> bool {
        self.wrapped@
    }

    /// Whether a user context provider is registered.
    pub closed spec fn has_provider(&self) -> bool {
        self.user_context_provider is Some
    }

    /// Whether `c` is a context the registered provider may give.
    pub closed spec fn provider_gives(&self, c: AuditUserContext) -> bool {
        match self.user_context_provider {
            Some(slot) => slot.provider.gives(c),
            None => false,
        }
    }

    /// Entry IDs increase strictly from oldest to newest and stay below the
    /// next ID.
    pub open spec fn ids_ascending(&self) -> bool {
        &&& forall|i: int, j: int|
            0 <= i < j < self.entry_seq().len() ==> #[trigger] self.entry_seq()[i].id
                < #[trigger] self.entry_seq()[j].id
        &&& forall|i: int|
            0 <= i < self.entry_seq().len() ==> #[trigger] self.entry_seq()[i].id
                < self.next_entry_id()
    }

    /// `e` is the entry recorded for `name` from `before` to `after` by this
    /// trail, with the given `changes`.
    pub open spec fn is_new_entry(
        &self,
        e: AuditEntry<State>,
        name: Seq<char>,
        before: State,
        after: State,
    ) -> bool {
        &&& e.id == self.next_entry_id()
        &&& e.mutation_name@ == name
        &&& e.action_name is None
        &&& cloned(before, e.state_before)
        &&& cloned(after, e.state_after)
        &&& (e.user_context is Some <==> self.has_provider())
        &&& (e.user_context matches Some(c) ==> self.provider_gives(c))
        &&& e.correlation_id is None
    }

    /// Create a new audit trail with the default maximum of 1000 entries.
    pub fn new() -> (t: Self)
        ensures
            t.entry_seq().len() == 0,
            t.next_entry_id() == 1,
            t.max_len() == 1000,
            !t.has_provider(),
            t.ids_ascending(),
            !t.counter_wrapped(),
    {
        AuditTrail {
            entries: Vec::new(),
            next_id: 1,
            max_entries: 1000,
            user_context_provider: None,
            wrapped: Ghost(false),
        }
    }

    /// Set the maximum number of entries to retain.
    ///
    /// When the limit is exceeded, the oldest entries are removed to make
    /// room at the next recording.
    pub fn with_max_entries(self, max: usize) -> (t: Self)
        ensures
            t.max_len() == max,
            t.entry_seq() == self.entry_seq(),
            t.next_entry_id() == self.next_entry_id(),
            t.has_provider() == self.has_provider(),
            forall|c: AuditUserContext| #[trigger] t.provider_gives(c) == self.provider_gives(c),
            t.counter_wrapped() == self.counter_wrapped(),
    {
        proof {
            use_type_invariant(&self);
        }
        let mut t = self;
        t.max_entries = max;
        t
    }

    /// Register a user context provider that is called for each recorded
    /// entry.
    pub fn with_user_context<F: Fn() -> AuditUserContext + Send + Sync + 'static>(
        self,
        provider: F,
    ) -> (t: Self)
        requires
            provider.requires(()),
        ensures
            t.has_provider(),
            forall|c: AuditUserContext| #[trigger] t.provider_gives(c) == provider.ensures((), c),
            t.max_len() == self.max_len(),
            t.entry_seq() == self.entry_seq(),
            t.next_entry_id() == self.next_entry_id(),
            t.counter_wrapped() == self.counter_wrapped(),
    {
        proof {
            use_type_invariant(&self);
        }
        let mut t = self;
        let p = FnUserContextProvider::new(provider);
        let slot = ProviderSlot { provider: Box::new(p) };
        t.user_context_provider = Some(slot);
        proof {
            assert forall|c: AuditUserContext| #[trigger] t.provider_gives(c) == provider.ensures((), c) by {
                assert(slot.provider.gives(c) == p.gives(c));
            }
        }
        t
    }

    fn user_context(&self) -> (r: Option<AuditUserContext>)
        ensures
            r is Some <==> self.has_provider(),
            r matches Some(c) ==> self.provider_gives(c),
    {
        match &self.user_context_provider {
            Some(p) => Some(p.provider.current()),
            None => None,
        }
    }

    /// Record a state mutation without field-level diffs, stamped with the
    /// current time.
    ///
    /// Captures before/after snapshots; if a user context provider is
    /// registered, its output is attached to the entry.
    pub fn record(&mut self, mutation_name: &str, state_before: &State, state_after: &State)
        ensures
            exists|e: AuditEntry<State>|
                #[trigger] old(self).is_new_entry(e, mutation_name@, *state_before, *state_after)
                    && e.changes@.len() == 0 && final(self).entry_seq() == keep_newest(
                    old(self).entry_seq().push(e),
                    old(self).max_len(),
                ),
            final(self).next_entry_id() == old(self).next_entry_id().wrapping_add(1),
            final(self).counter_wrapped() == (old(self).counter_wrapped() || old(self).next_entry_id()
                == u64::MAX),
            final(self).max_len() == old(self).max_len(),
            final(self).has_provider() == old(self).has_provider(),
            forall|c: AuditUserContext| #[trigger] final(self).provider_gives(c) == old(self).provider_gives(c),
            final(self).entry_seq().len() <= final(self).max_len(),
            old(self).ids_ascending() && old(self).next_entry_id() < u64::MAX
                ==> final(self).ids_ascending(),
    {
        self.record_at(mutation_name, state_before, state_after, current_timestamp_ms());
    }

    /// Record a state mutation without field-level diffs, stamped `now`
    /// (milliseconds since the Unix epoch).
    pub fn record_at(&mut self, mutation_name: &str, state_before: &State, state_after: &State, now: u64)
        ensures
            exists|e: AuditEntry<State>|
                #[trigger] old(self).is_new_entry(e, mutation_name@, *state_before, *state_after)
                    && e.timestamp == now && e.changes@.len() == 0 && final(self).entry_seq()
                    == keep_newest(old(self).entry_seq().push(e), old(self).max_len()),
            final(self).next_entry_id() == old(self).next_entry_id().wrapping_add(1),
            final(self).counter_wrapped() == (old(self).counter_wrapped() || old(self).next_entry_id()
                == u64::MAX),
            final(self).max_len() == old(self).max_len(),
            final(self).has_provider() == old(self).has_provider(),
            forall|c: AuditUserContext| #[trigger] final(self).provider_gives(c) == old(self).provider_gives(c),
            final(self).entry_seq().len() <= final(self).max_len(),
            old(self).ids_ascending() && old(self).next_entry_id() < u64::MAX
                ==> final(self).ids_ascending(),
    {
        let user_context = self.user_context();
        let entry = AuditEntry {
            id: self.next_id,
            timestamp: now,
            mutation_name: mutation_name.to_owned(),
            action_name: None,
            state_before: state_before.clone(),
            state_after: state_after.clone(),
            changes: Vec::new(),
            user_context,
            correlation_id: None,
        };
        let ghost e = entry;
        let ghost old_self = *self;
        self.add_entry(entry);
        proof {
            assert(old_self.is_new_entry(e, mutation_name@, *state_before, *state_after));
        }
    }

    /// Record a state mutation with field-level diffs computed by
    /// [`StateDiff::diff`], stamped with the current time.
    pub fn record_with_diff(&mut self, mutation_name: &str, state_before: &State, state_after: &State)
        where
            State: StateDiff,
        ensures
            exists|e: AuditEntry<State>|
                #[trigger] old(self).is_new_entry(e, mutation_name@, *state_before, *state_after)
                    && state_before.gives_diff(state_after, e.changes@) && final(self).entry_seq()
                    == keep_newest(old(self).entry_seq().push(e), old(self).max_len()),
            final(self).next_entry_id() == old(self).next_entry_id().wrapping_add(1),
            final(self).counter_wrapped() == (old(self).counter_wrapped() || old(self).next_entry_id()
                == u64::MAX),
            final(self).max_len() == old(self).max_len(),
            final(self).has_provider() == old(self).has_provider(),
            forall|c: AuditUserContext| #[trigger] final(self).provider_gives(c) == old(self).provider_gives(c),
            final(self).entry_seq().len() <= final(self).max_len(),
            old(self).ids_ascending() && old(self).next_entry_id() < u64::MAX
                ==> final(self).ids_ascending(),
    {
        self.record_with_diff_at(mutation_name, state_before, state_after, current_timestamp_ms());
    }

    /// Record a state mutation with field-level diffs computed by
    /// [`StateDiff::diff`], stamped `now` (milliseconds since the Unix
    /// epoch).
    pub fn record_with_diff_at(&mut self, mutation_name: &str, state_before: &State, state_after: &State, now: u64)
        where
            State: StateDiff,
        ensures
            exists|e: AuditEntry<State>|
                #[trigger] old(self).is_new_entry(e, mutation_name@, *state_before, *state_after)
                    && e.timestamp == now && state_before.gives_diff(state_after, e.changes@)
                    && final(self).entry_seq() == keep_newest(
                    old(self).entry_seq().push(e),
                    old(self).max_len(),
                ),
            final(self).next_entry_id() == old(self).next_entry_id().wrapping_add(1),
            final(self).counter_wrapped() == (old(self).counter_wrapped() || old(self).next_entry_id()
                == u64::MAX),
            final(self).max_len() == old(self).max_len(),
            final(self).has_provider() == old(self).has_provider(),
            forall|c: AuditUserContext| #[trigger] final(self).provider_gives(c) == old(self).provider_gives(c),
            final(self).entry_seq().len() <= final(self).max_len(),
            old(self).ids_ascending() && old(self).next_entry_id() < u64::MAX
                ==> final(self).ids_ascending(),
    {
        let changes = state_before.diff(state_after);
        let user_context = self.user_context();
        let entry = AuditEntry {
            id: self.next_id,
            timestamp: now,
            mutation_name: mutation_name.to_owned(),
            action_name: None,
            state_before: state_before.clone(),
            state_after: state_after.clone(),
            changes,
            user_context,
            correlation_id: None,
        };
        let ghost e = entry;
        let ghost old_self = *self;
        self.add_entry(entry);
        proof {
            assert(old_self.is_new_entry(e, mutation_name@, *state_before, *state_after));
        }
    }

    proof fn lemma_push_keeps_ascending(&self, e: AuditEntry<State>, after: Seq<AuditEntry<State>>)
        requires
            after == keep_newest(self.entry_seq().push(e), self.max_len()),
            e.id == self.next_entry_id(),
        ensures
            self.ids_ascending() && self.next_entry_id() < u64::MAX ==> {
                &&& forall|i: int, j: int|
                    0 <= i < j < after.len() ==> #[trigger] after[i].id < #[trigger] after[j].id
                &&& forall|i: int| 0 <= i < after.len() ==> #[trigger] after[i].id < self.next_entry_id() + 1
            },
    {
        if self.ids_ascending() && self.next_entry_id() < u64::MAX {
            let full = self.entry_seq().push(e);
            assert forall|i: int, j: int| 0 <= i < j < full.len() implies #[trigger] full[i].id < #[trigger] full[j].id by {
                if j == full.len() - 1 {
                    assert(full[i] == self.entry_seq()[i]);
                } else {
                    assert(full[i] == self.entry_seq()[i]);
                    assert(full[j] == self.entry_seq()[j]);
                }
            }
            assert forall|i: int| 0 <= i < full.len() implies #[trigger] full[i].id < self.next_entry_id() + 1 by {
                if i < full.len() - 1 {
                    assert(full[i] == self.entry_seq()[i]);
                }
            }
            let off = if full.len() > self.max_len() {
                full.len() - self.max_len()
            } else {
                0
            };
            assert forall|i: int, j: int| 0 <= i < j < after.len() implies #[trigger] after[i].id < #[trigger] after[j].id by {
                assert(after[i] == full[i + off]);
                assert(after[j] == full[j + off]);
            }
            assert forall|i: int| 0 <= i < after.len() implies #[trigger] after[i].id < self.next_entry_id() + 1 by {
                assert(after[i] == full[i + off]);
            }
        }
    }

    /// Record `entry`, which carries the next ID: the counter moves on and
    /// the entry joins the history, the oldest entries being dropped past
    /// the limit.
    fn add_entry(&mut self, entry: AuditEntry<State>)
        requires
            entry.id == old(self).next_entry_id(),
        ensures
            final(self).entry_seq() == keep_newest(old(self).entry_seq().push(entry), old(self).max_len()),
            final(self).next_entry_id() == old(self).next_entry_id().wrapping_add(1),
            final(self).counter_wrapped() == (old(self).counter_wrapped() || old(self).next_entry_id()
                == u64::MAX),
            final(self).max_len() == old(self).max_len(),
            final(self).has_provider() == old(self).has_provider(),
            forall|c: AuditUserContext| #[trigger] final(self).provider_gives(c) == old(self).provider_gives(c),
            final(self).entry_seq().len() <= final(self).max_len(),
            old(self).ids_ascending() && old(self).next_entry_id() < u64::MAX
                ==> final(self).ids_ascending(),
    {
        proof {
            use_type_invariant(&*self);
        }
        let ghost old_self = *self;
        let mut list: Vec<AuditEntry<State>> = Vec::new();
        std::mem::swap(&mut list, &mut self.entries);
        if self.next_id == u64::MAX {
            self.wrapped = Ghost(true);
        }
        self.next_id = self.next_id.wrapping_add(1);
        push_newest(&mut list, entry, self.max_entries);
        proof {
            old_self.lemma_push_keeps_ascending(entry, list@);
        }
        self.entries = list;
    }

    /// A copy of all audit entries, ordered from oldest to newest.
    pub fn entries(&self) -> (r: Vec<AuditEntry<State>>)
        ensures
            r@.len() == self.entry_seq().len(),
            forall|i: int| 0 <= i < r@.len() ==> (#[trigger] r@[i]).is_copy_of(&self.entry_seq()[i]),
            !self.counter_wrapped() ==> forall|i: int, j: int|
                0 <= i < j < r@.len() ==> #[trigger] r@[i].id < #[trigger] r@[j].id,
    {
        proof {
            use_type_invariant(self);
        }
        let n = self.entries.len();
        let mut r: Vec<AuditEntry<State>> = Vec::new();
        let mut i: usize = 0;
        while i < n
            invariant
                n == self.entries@.len(),
                i <= n,
                r@.len() == i,
                forall|k: int| 0 <= k < i ==> (#[trigger] r@[k]).is_copy_of(&self.entries@[k]),
            decreases n - i,
        {
            r.push(self.entries[i].clone());
            i = i + 1;
        }
        r
    }

    /// Copies of the entries satisfying `keep`, oldest first.
    fn filtered(&self, by_name: Option<&str>, since: u64) -> (r: Vec<AuditEntry<State>>)
        ensures
            r@.len() == self.entry_seq().filter(|e: AuditEntry<State>| entry_matches(e, by_name, since)).len(),
            forall|i: int|
                0 <= i < r@.len() ==> (#[trigger] r@[i]).is_copy_of(
                    &self.entry_seq().filter(|e: AuditEntry<State>| entry_matches(e, by_name, since))[i],
                ),
    {
        let ghost pred = |e: AuditEntry<State>| entry_matches(e, by_name, since);
        let n = self.entries.len();
        let mut r: Vec<AuditEntry<State>> = Vec::new();
        let mut i: usize = 0;
        while i < n
            invariant
                n == self.entries@.len(),
                i <= n,
                pred == (|e: AuditEntry<State>| entry_matches(e, by_name, since)),
                r@.len() == self.entries@.take(i as int).filter(pred).len(),
                forall|k: int|
                    0 <= k < r@.len() ==> (#[trigger] r@[k]).is_copy_of(
                        &self.entries@.take(i as int).filter(pred)[k],
                    ),
            decreases n - i,
        {
            let e = &self.entries[i];
            let keep = match by_name {
                Some(name) => crate::text::same_text(e.mutation_name.as_str(), name),
                None => e.timestamp >= since,
            };
            proof {
                assert(self.entries@.take(i + 1) == self.entries@.take(i as int).push(self.entries@[i as int]));
                self.entries@.take(i as int).lemma_filter_push(self.entries@[i as int], pred);
                assert(keep == pred(self.entries@[i as int]));
            }
            let ghost r0 = r@;
            if keep {
                r.push(e.clone());
                proof {
                    let f = self.entries@.take(i + 1).filter(pred);
                    assert forall|k: int| 0 <= k < r@.len() implies (#[trigger] r@[k]).is_copy_of(&f[k]) by {
                        if k < r0.len() {
                            assert(r@[k] == r0[k]);
                        }
                    }
                }
            }
            i = i + 1;
        }
        proof {
            assert(self.entries@.take(n as int) == self.entries@);
        }
        r
    }

    /// Copies of the entries recorded for the mutation `name`, oldest first.
    pub fn entries_for_mutation(&self, name: &str) -> (r: Vec<AuditEntry<State>>)
        ensures
            r@.len() == self.entry_seq().filter(|e: AuditEntry<State>| e.mutation_name@ == name@).len(),
            forall|i: int|
                0 <= i < r@.len() ==> (#[trigger] r@[i]).is_copy_of(
                    &self.entry_seq().filter(|e: AuditEntry<State>| e.mutation_name@ == name@)[i],
                ),
    {
        let r = self.filtered(Some(name), 0);
        proof {
            assert((|e: AuditEntry<State>| entry_matches(e, Some(name), 0)) =~= (|e: AuditEntry<State>| e.mutation_name@ == name@));
        }
        r
    }

    /// Copies of the entries recorded at or after `timestamp` (milliseconds
    /// since the epoch), oldest first.
    pub fn entries_since(&self, timestamp: u64) -> (r: Vec<AuditEntry<State>>)
        ensures
            r@.len() == self.entry_seq().filter(|e: AuditEntry<State>| e.timestamp >= timestamp).len(),
            forall|i: int|
                0 <= i < r@.len() ==> (#[trigger] r@[i]).is_copy_of(
                    &self.entry_seq().filter(|e: AuditEntry<State>| e.timestamp >= timestamp)[i],
                ),
    {
        let r = self.filtered(None, timestamp);
        proof {
            assert((|e: AuditEntry<State>| entry_matches(e, None, timestamp)) =~= (|e: AuditEntry<State>| e.timestamp >= timestamp));
        }
        r
    }

    /// Position of the first entry with `id`.
    pub open spec fn position_of(&self, id: u64) -> Option<int> {
        if exists|i: int| 0 <= i < self.entry_seq().len() && self.entry_seq()[i].id == id {
            Some(
                choose|i: int|
                    0 <= i < self.entry_seq().len() && self.entry_seq()[i].id == id && forall|k: int|
                        0 <= k < i ==> self.entry_seq()[k].id != id,
            )
        } else {
            None
        }
    }

    fn find_id(&self, id: u64) -> (r: Option<usize>)
        ensures
            match r {
                Some(i) => self.position_of(id) == Some(i as int) && i < self.entry_seq().len()
                    && self.entry_seq()[i as int].id == id,
                None => self.position_of(id) is None,
            },
    {
        let n = self.entries.len();
        let mut i: usize = 0;
        while i < n
            invariant
                n == self.entries@.len(),
                i <= n,
                forall|k: int| 0 <= k < i ==> self.entries@[k].id != id,
            decreases n - i,
        {
            if self.entries[i].id == id {
                proof {
                    let w = choose|w: int|
                        0 <= w < self.entry_seq().len() && self.entry_seq()[w].id == id && forall|k: int|
                            0 <= k < w ==> self.entry_seq()[k].id != id;
                    assert(0 <= i < self.entry_seq().len() && self.entry_seq()[i as int].id == id && forall|k: int|
                        0 <= k < i ==> self.entry_seq()[k].id != id);
                    if w < i {
                    } else if w > i {
                        assert(self.entry_seq()[i as int].id != id);
                    }
                }
                return Some(i);
            }
            i = i + 1;
        }
        None
    }

    /// Look up a single entry by its ID.
    pub fn entry_by_id(&self, id: u64) -> (r: Option<AuditEntry<State>>)
        ensures
            match self.position_of(id) {
                Some(i) => r matches Some(e) && e.is_copy_of(&self.entry_seq()[i]),
                None => r is None,
            },
            !self.counter_wrapped() ==> forall|i: int, j: int|
                0 <= i < j < self.entry_seq().len() ==> #[trigger] self.entry_seq()[i].id
                    != #[trigger] self.entry_seq()[j].id,
    {
        proof {
            use_type_invariant(self);
        }
        match self.find_id(id) {
            Some(i) => Some(self.entries[i].clone()),
            None => None,
        }
    }

    /// The `state_after` snapshot of the entry with the given ID: the state
    /// as it was right after that mutation.
    pub fn state_at(&self, entry_id: u64) -> (r: Option<State>)
        ensures
            match self.position_of(entry_id) {
                Some(i) => r matches Some(s) && cloned(self.entry_seq()[i].state_after, s),
                None => r is None,
            },
    {
        match self.entry_by_id(entry_id) {
            Some(entry) => Some(entry.state_after),
            None => None,
        }
    }

    /// The number of entries currently stored.
    pub fn len(&self) -> (r: usize)
        ensures
            r == self.entry_seq().len(),
    {
        self.entries.len()
    }

    /// Whether the audit trail is empty.
    pub fn is_empty(&self) -> (r: bool)
        ensures
            r == (self.entry_seq().len() == 0),
    {
        self.entries.len() == 0
    }

    /// Remove all entries.
    pub fn clear(&mut self)
        ensures
            final(self).entry_seq().len() == 0,
            final(self).next_entry_id() == old(self).next_entry_id(),
            final(self).max_len() == old(self).max_len(),
            final(self).has_provider() == old(self).has_provider(),
            forall|c: AuditUserContext| #[trigger] final(self).provider_gives(c) == old(self).provider_gives(c),
            final(self).counter_wrapped() == old(self).counter_wrapped(),
    {
        self.entries = Vec::new();
    }
}

/// The filter behind the queries: by mutation name when `by_name` is given,
/// otherwise by timestamp.
pub open spec fn entry_matches<State: Clone>(e: AuditEntry<State>, by_name: Option<&str>, since: u64) -> bool {
    match by_name {
        Some(name) => e.mutation_name@ == name@,
        None => e.timestamp >= since,
    }
}

/// After any recording, the trail holds at most its maximum number of
/// entries, and they are the newest ones.
pub proof fn lemma_keep_newest_bounded<T>(entries: Seq<T>, max: nat)
    ensures
        keep_newest(entries, max).len() <= max || entries.len() <= max,
        keep_newest(entries, max).len() == if entries.len() > max {
            max
        } else {
            entries.len()
        },
        forall|i: int|
            0 <= i < keep_newest(entries, max).len() ==> #[trigger] keep_newest(entries, max)[i]
                == entries[entries.len() - keep_newest(entries, max).len() + i],
{
}

} // verus!
