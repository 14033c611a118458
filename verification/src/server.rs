//! Server actions: their errors, the status of a dispatched action, the
//! builder settings, optimistic-update settings and an action history.
//!
//! Running the server call itself (an asynchronous request) is left to the
//! caller, which reports its start and its outcome to [`ActionStatus`].

use vstd::prelude::*;
use vstd::string::StringExecFns;
use crate::audit::push_trimmed;
use crate::store::Store;
use crate::text::{decimal, push_decimal};

verus! {

// ============================================================================
// Errors
// ============================================================================

/// Errors that can occur during server action execution.
#[derive(Debug, Clone, PartialEq, Eq)]
pub enum ServerActionError {
    /// The server function failed.
    ServerFn(String),
    /// Network error.
    Network(String),
    /// Timeout error.
    Timeout(u64),
    /// Store update failed.
    StoreUpdate(String),
    /// Action was cancelled.
    Cancelled,
}

impl ServerActionError {
    /// The text of the error message.
    pub open spec fn message_spec(&self) -> Seq<char> {
        match self {
            ServerActionError::ServerFn(s) => "Server function error: "@ + s@,
            ServerActionError::Network(s) => "Network error: "@ + s@,
            ServerActionError::Timeout(ms) => "Request timed out after "@ + decimal(*ms as nat)
                + "ms"@,
            ServerActionError::StoreUpdate(s) => "Store update failed: "@ + s@,
            ServerActionError::Cancelled => "Action was cancelled"@,
        }
    }

    /// The human-readable error message.
    pub fn message(&self) -> (r: String)
        ensures
            r@ == self.message_spec(),
    {
        match self {
            ServerActionError::ServerFn(s) => String::from_str("Server function error: ").concat(s.as_str()),
            ServerActionError::Network(s) => String::from_str("Network error: ").concat(s.as_str()),
            ServerActionError::Timeout(ms) => {
                let mut r = String::from_str("Request timed out after ");
                push_decimal(&mut r, *ms);
                r.append("ms");
                r
            },
            ServerActionError::StoreUpdate(s) => String::from_str("Store update failed: ").concat(
                s.as_str(),
            ),
            ServerActionError::Cancelled => String::from_str("Action was cancelled"),
        }
    }
}

/// Result type for server actions.
pub type ServerActionResult<T> = Result<T, ServerActionError>;

// ============================================================================
// Action status
// ============================================================================

/// The state of an asynchronous action.
#[derive(Debug, Clone, Copy, PartialEq, Eq, Structural)]
pub enum ActionState {
    /// Not dispatched, or cleared.
    Idle,
    /// Dispatched and not finished.
    Pending,
    /// Finished with a value.
    Success,
    /// Finished with an error.
    Error,
}

/// The state shown for an action: pending first, then an error, then a
/// value, else idle.
pub open spec fn state_of(pending: bool, has_error: bool, has_value: bool) -> ActionState {
    if pending {
        ActionState::Pending
    } else if has_error {
        ActionState::Error
    } else if has_value {
        ActionState::Success
    } else {
        ActionState::Idle
    }
}

/// The status of a server action: its last input, value and error,
/// whether a call is running, and how many calls were dispatched.
#[derive(Debug, Clone)]
pub struct ActionStatus<I, O> {
    /// Input of the last dispatch.
    pub input: Option<I>,
    /// Value of the last successful call.
    pub value: Option<O>,
    /// Error of the last failed call.
    pub error: Option<ServerActionError>,
    /// Whether a call is running.
    pub pending: bool,
    /// Number of dispatches.
    pub version: u64,
}

impl<I, O> ActionStatus<I, O> {
    /// Nothing dispatched yet.
    pub fn new() -> (s: Self)
        ensures
            s.input is None,
            s.value is None,
            s.error is None,
            !s.pending,
            s.version == 0,
    {
        ActionStatus { input: None, value: None, error: None, pending: false, version: 0 }
    }

    /// A call with `input` starts: the input is kept, any error is
    /// forgotten, the action is pending and the version goes up by one.
    pub fn begin(&mut self, input: I)
        requires
            old(self).version < u64::MAX,
        ensures
            final(self).input == Some(input),
            final(self).value == old(self).value,
            final(self).error is None,
            final(self).pending,
            final(self).version == old(self).version + 1,
    {
        self.input = Some(input);
        self.error = None;
        self.pending = true;
        self.version = self.version + 1;
    }

    /// A call finishes: a value replaces the last value and clears the
    /// error; an error is kept (the last value stays). The action is no
    /// longer pending.
    pub fn complete(&mut self, result: ServerActionResult<O>)
        ensures
            !final(self).pending,
            final(self).input == old(self).input,
            final(self).version == old(self).version,
            match result {
                Ok(v) => final(self).value == Some(v) && final(self).error is None,
                Err(e) => final(self).value == old(self).value && final(self).error == Some(e),
            },
    {
        match result {
            Ok(v) => {
                self.value = Some(v);
                self.error = None;
            },
            Err(e) => {
                self.error = Some(e);
            },
        }
        self.pending = false;
    }

    /// The current state of the action.
    pub fn state(&self) -> (r: ActionState)
        ensures
            r == state_of(self.pending, self.error is Some, self.value is Some),
    {
        if self.pending {
            ActionState::Pending
        } else if self.error.is_some() {
            ActionState::Error
        } else if self.value.is_some() {
            ActionState::Success
        } else {
            ActionState::Idle
        }
    }

    /// Forget the input, value and error, and stop pending; the version is
    /// kept.
    pub fn clear(&mut self)
        ensures
            final(self).input is None,
            final(self).value is None,
            final(self).error is None,
            !final(self).pending,
            final(self).version == old(self).version,
    {
        self.input = None;
        self.value = None;
        self.error = None;
        self.pending = false;
    }
}

/// A successful call leaves the action in the success state and a failed
/// one in the error state.
pub proof fn lemma_outcome_state<O>(had_value: bool, result: ServerActionResult<O>)
    ensures
        result is Ok ==> state_of(false, false, true) == ActionState::Success,
        result is Err ==> state_of(false, true, had_value) == ActionState::Error,
        forall|e: bool, v: bool| state_of(true, e, v) == ActionState::Pending,
{
}

// ============================================================================
// Optimistic updates and builder settings
// ============================================================================

/// Configuration for optimistic updates.
#[derive(Debug, Clone)]
pub struct OptimisticConfig<T> {
    /// The optimistic value to apply immediately.
    pub optimistic_value: T,
    /// Whether to rollback on error.
    pub rollback_on_error: bool,
    /// Delay before applying the optimistic update (ms).
    pub delay_ms: u64,
}

impl<T: Default> Default for OptimisticConfig<T> {
    fn default() -> (c: Self)
        ensures
            c.rollback_on_error,
            c.delay_ms == 0,
    {
        OptimisticConfig { optimistic_value: T::default(), rollback_on_error: true, delay_ms: 0 }
    }
}

/// Settings for running a server action: an optional timeout and retries.
pub struct ServerActionBuilder<S: Store> {
    timeout_ms: Option<u64>,
    retry_count: u32,
    retry_delay_ms: u64,
    store: std::marker::PhantomData<S>,
}

impl<S: Store> ServerActionBuilder<S> {
    /// The timeout, if any.
    pub closed spec fn timeout_spec(&self) -> Option<u64> {
        self.timeout_ms
    }

    /// The number of retries.
    pub closed spec fn retry_spec(&self) -> u32 {
        self.retry_count
    }

    /// The delay between retries.
    pub closed spec fn retry_delay_spec(&self) -> u64 {
        self.retry_delay_ms
    }

    /// No timeout, no retry, a second between retries.
    pub fn new() -> (b: Self)
        ensures
            b.timeout_spec() is None,
            b.retry_spec() == 0,
            b.retry_delay_spec() == 1000,
    {
        ServerActionBuilder {
            timeout_ms: None,
            retry_count: 0,
            retry_delay_ms: 1000,
            store: std::marker::PhantomData,
        }
    }

    /// Set a timeout for the server call.
    pub fn with_timeout(self, ms: u64) -> (b: Self)
        ensures
            b.timeout_spec() == Some(ms),
            b.retry_spec() == self.retry_spec(),
            b.retry_delay_spec() == self.retry_delay_spec(),
    {
        ServerActionBuilder { timeout_ms: Some(ms), ..self }
    }

    /// Set the number of retry attempts.
    pub fn with_retry(self, count: u32) -> (b: Self)
        ensures
            b.timeout_spec() == self.timeout_spec(),
            b.retry_spec() == count,
            b.retry_delay_spec() == self.retry_delay_spec(),
    {
        ServerActionBuilder { retry_count: count, ..self }
    }

    /// Set the delay between retries.
    pub fn with_retry_delay(self, ms: u64) -> (b: Self)
        ensures
            b.timeout_spec() == self.timeout_spec(),
            b.retry_spec() == self.retry_spec(),
            b.retry_delay_spec() == ms,
    {
        ServerActionBuilder { retry_delay_ms: ms, ..self }
    }

    /// Get the timeout.
    pub fn timeout_ms(&self) -> (r: Option<u64>)
        ensures
            r == self.timeout_spec(),
    {
        self.timeout_ms
    }

    /// Get the retry count.
    pub fn retry_count(&self) -> (r: u32)
        ensures
            r == self.retry_spec(),
    {
        self.retry_count
    }
}

// ============================================================================
// Action history
// ============================================================================

/// An entry in the action history.
#[derive(Debug)]
pub struct ActionHistoryEntry {
    /// Action description/name.
    pub action: String,
    /// When the action was dispatched.
    pub timestamp: u64,
    /// Duration of the action (if completed).
    pub duration_ms: Option<u64>,
    /// Whether it succeeded.
    pub success: bool,
    /// Error message if failed.
    pub error: Option<String>,
}

impl Clone for ActionHistoryEntry {
    fn clone(&self) -> (r: Self)
        ensures
            r == *self,
    {
        ActionHistoryEntry {
            action: self.action.clone(),
            timestamp: self.timestamp,
            duration_ms: self.duration_ms,
            success: self.success,
            error: match &self.error {
                Some(e) => Some(e.clone()),
                None => None,
            },
        }
    }
}

/// The recent actions, for debugging and analytics; the oldest entry is
/// dropped when the history is full.
#[derive(Debug, Clone)]
pub struct ActionHistory {
    entries: Vec<ActionHistoryEntry>,
    max_entries: usize,
}

impl ActionHistory {
    /// The entries, oldest first.
    pub closed spec fn entries_spec(&self) -> Seq<ActionHistoryEntry> {
        self.entries@
    }

    /// The history limit.
    pub closed spec fn limit(&self) -> nat {
        self.max_entries as nat
    }

    /// An empty history keeping at most `max_entries` entries.
    pub fn new(max_entries: usize) -> (h: ActionHistory)
        ensures
            h.entries_spec().len() == 0,
            h.limit() == max_entries,
    {
        ActionHistory { entries: Vec::new(), max_entries }
    }

    /// Record an action; when that makes more than the limit, the oldest
    /// entry is dropped.
    pub fn record(&mut self, entry: ActionHistoryEntry)
        ensures
            final(self).entries_spec() == push_trimmed(old(self).entries_spec(), entry, old(self).limit()),
            final(self).limit() == old(self).limit(),
    {
        let ghost before = self.entries@;
        self.entries.push(entry);
        if self.entries.len() > self.max_entries {
            self.entries.remove(0);
            proof {
                assert(self.entries@ =~= before.push(entry).drop_first());
            }
        }
    }

    /// All entries, oldest first.
    pub fn entries(&self) -> (r: Vec<ActionHistoryEntry>)
        ensures
            r@ == self.entries_spec(),
    {
        let mut r: Vec<ActionHistoryEntry> = Vec::new();
        let mut i: usize = 0;
        while i < self.entries.len()
            invariant
                i <= self.entries@.len(),
                r@ == self.entries@.take(i as int),
            decreases self.entries.len() - i,
        {
            r.push(self.entries[i].clone());
            i = i + 1;
            proof {
                assert(r@ =~= self.entries@.take(i as int));
            }
        }
        proof {
            assert(self.entries@.take(self.entries@.len() as int) =~= self.entries@);
        }
        r
    }

    /// The `count` most recent entries, newest first.
    pub fn recent(&self, count: usize) -> (r: Vec<ActionHistoryEntry>)
        ensures
            r@.len() == if count < self.entries_spec().len() { count as nat } else { self.entries_spec().len() },
            forall|k: int|
                0 <= k < r@.len() ==> #[trigger] r@[k] == self.entries_spec()[self.entries_spec().len() - 1 - k],
    {
        let n = self.entries.len();
        let mut r: Vec<ActionHistoryEntry> = Vec::new();
        let mut k: usize = 0;
        while k < count && k < n
            invariant
                n == self.entries@.len(),
                k <= n,
                k <= count,
                r@.len() == k,
                forall|j: int| 0 <= j < k ==> #[trigger] r@[j] == self.entries@[n - 1 - j],
            decreases n - k,
        {
            r.push(self.entries[n - 1 - k].clone());
            k = k + 1;
        }
        r
    }

    /// Remove every entry.
    pub fn clear(&mut self)
        ensures
            final(self).entries_spec().len() == 0,
            final(self).limit() == old(self).limit(),
    {
        self.entries.clear();
    }

    /// The number of entries.
    pub fn len(&self) -> (n: usize)
        ensures
            n == self.entries_spec().len(),
    {
        self.entries.len()
    }

    /// Whether there is no entry.
    pub fn is_empty(&self) -> (b: bool)
        ensures
            b == (self.entries_spec().len() == 0),
    {
        self.entries.len() == 0
    }
}

impl Default for ActionHistory {
    fn default() -> (h: ActionHistory)
        ensures
            h.entries_spec().len() == 0,
            h.limit() == 100,
    {
        ActionHistory::new(100)
    }
}

} // verus!
