//! Middleware system for store actions and mutations.
//!
//! Two patterns: a middleware chain that intercepts mutations and actions
//! before and after they run, and an event bus that lets subscribers observe
//! store events without affecting control flow.

use vstd::prelude::*;
use vstd::string::StringExecFns;
use std::sync::Arc;
use vstd::rwlock::{ReadHandle, RwLock, RwLockPredicate, WriteHandle};
use std::time::Duration;
use crate::store::{Store, StoreError, StoreId};
use crate::text::{StringMap, decimal, push_decimal};
use crate::clock::{
    browser_now_ms, clock_kind, current_timestamp_ms, duration_debug, duration_from_millis, duration_millis,
    duration_text, instant_elapsed, instant_now, millis_of, on_the_web,
};
use crate::priority::{descending_stable, is_index_permutation, is_rearrangement, lemma_push_index, push_item, sort_by_priority};

verus! {

/// A reading of the monotonic clock natively, or of the browser's clock
/// (whole milliseconds since the Unix epoch) on the web.
#[derive(Clone, Copy, Debug)]
enum ClockReading {
    Native(std::time::Instant),
    Web(u64),
}

/// A point in time, for measuring how long an operation takes.
#[derive(Clone, Copy, Debug)]
pub struct CrossInstant {
    reading: ClockReading,
}

impl CrossInstant {
    /// Get the current instant.
    pub fn now() -> CrossInstant {
        let kind = clock_kind();
        if on_the_web(&kind) {
            CrossInstant { reading: ClockReading::Web(browser_now_ms(&kind)) }
        } else {
            CrossInstant { reading: ClockReading::Native(instant_now(&kind)) }
        }
    }

    /// Get the duration since this instant was created. On the web it is
    /// counted in whole milliseconds, and is zero if the browser's clock
    /// went back.
    pub fn elapsed(&self) -> Duration {
        let kind = clock_kind();
        let web = on_the_web(&kind);
        match self.reading {
            ClockReading::Native(instant) => {
                if web {
                    duration_from_millis(0)
                } else {
                    instant_elapsed(&kind, &instant)
                }
            },
            ClockReading::Web(start) => {
                if web {
                    let now = browser_now_ms(&kind);
                    duration_from_millis(now.saturating_sub(start))
                } else {
                    duration_from_millis(0)
                }
            },
        }
    }
}

// ============================================================================
// Errors and results
// ============================================================================

/// Errors that can occur during middleware execution.
#[derive(Debug, Clone, PartialEq, Eq)]
pub enum MiddlewareError {
    /// Middleware rejected the operation.
    Rejected(String),
    /// Middleware validation failed.
    ValidationFailed(String),
    /// Middleware timed out.
    Timeout(u64),
    /// Internal middleware error.
    Internal(String),
}

impl MiddlewareError {
    /// The text of the error message.
    pub open spec fn message_spec(&self) -> Seq<char> {
        match self {
            MiddlewareError::Rejected(s) => "Middleware rejected: "@ + s@,
            MiddlewareError::ValidationFailed(s) => "Validation failed: "@ + s@,
            MiddlewareError::Timeout(ms) => "Middleware timed out after "@ + decimal(*ms as nat)
                + "ms"@,
            MiddlewareError::Internal(s) => "Middleware error: "@ + s@,
        }
    }

    /// The human-readable error message.
    pub fn message(&self) -> (r: String)
        ensures
            r@ == self.message_spec(),
    {
        match self {
            MiddlewareError::Rejected(s) => String::from_str("Middleware rejected: ").concat(s.as_str()),
            MiddlewareError::ValidationFailed(s) => String::from_str("Validation failed: ").concat(
                s.as_str(),
            ),
            MiddlewareError::Timeout(ms) => {
                let mut r = String::from_str("Middleware timed out after ");
                push_decimal(&mut r, *ms);
                r.append("ms");
                r
            },
            MiddlewareError::Internal(s) => String::from_str("Middleware error: ").concat(s.as_str()),
        }
    }
}

/// Result of middleware execution that controls the pipeline flow.
#[derive(Debug, Clone, Default)]
pub enum MiddlewareResult {
    /// Continue to the next middleware or operation.
    #[default]
    Continue,
    /// Skip remaining middleware but execute the operation.
    Skip,
    /// Abort the entire operation.
    Abort(MiddlewareError),
    /// Transform and continue (for advanced use cases).
    Transform,
}

impl MiddlewareResult {
    /// Check if the result allows continuation.
    pub fn should_continue(&self) -> (r: bool)
        ensures
            r == (self is Continue || self is Transform),
    {
        match self {
            MiddlewareResult::Continue | MiddlewareResult::Transform => true,
            _ => false,
        }
    }

    /// Check if the result is an abort.
    pub fn is_abort(&self) -> (r: bool)
        ensures
            r == self is Abort,
    {
        match self {
            MiddlewareResult::Abort(_) => true,
            _ => false,
        }
    }

    /// Get the error if this is an abort result.
    pub fn error(&self) -> (r: Option<&MiddlewareError>)
        ensures
            match self {
                MiddlewareResult::Abort(e) => r == Some(e),
                _ => r is None,
            },
    {
        match self {
            MiddlewareResult::Abort(e) => Some(e),
            _ => None,
        }
    }
}

/// Result of a mutation operation.
#[derive(Debug, Clone)]
pub struct MutationResult {
    /// Whether the mutation succeeded.
    pub success: bool,
    /// Duration of the mutation.
    pub duration: Duration,
    /// Error message if failed.
    pub error: Option<String>,
}

impl MutationResult {
    /// Create a successful mutation result.
    pub fn success(duration: Duration) -> (r: MutationResult)
        ensures
            r.success,
            r.duration == duration,
            r.error is None,
    {
        MutationResult { success: true, duration, error: None }
    }

    /// Create a failed mutation result.
    pub fn failure(duration: Duration, error: &str) -> (r: MutationResult)
        ensures
            !r.success,
            r.duration == duration,
            r.error matches Some(e) && e@ == error@,
    {
        MutationResult { success: false, duration, error: Some(error.to_owned()) }
    }
}

/// Result of an action operation.
#[derive(Debug, Clone)]
pub struct ActionResult {
    /// Whether the action succeeded.
    pub success: bool,
    /// Duration of the action.
    pub duration: Duration,
    /// Error message if failed.
    pub error: Option<String>,
    /// Output type name (for debugging).
    pub output_type: Option<&'static str>,
}

impl ActionResult {
    /// Create a successful action result.
    pub fn success(duration: Duration) -> (r: ActionResult)
        ensures
            r.success,
            r.duration == duration,
            r.error is None,
            r.output_type is None,
    {
        ActionResult { success: true, duration, error: None, output_type: None }
    }

    /// Create a successful action result with output type.
    pub fn success_with_output(duration: Duration, output_type: &'static str) -> (r: ActionResult)
        ensures
            r.success,
            r.duration == duration,
            r.error is None,
            r.output_type == Some(output_type),
    {
        ActionResult { success: true, duration, error: None, output_type: Some(output_type) }
    }

    /// Create a failed action result.
    pub fn failure(duration: Duration, error: &str) -> (r: ActionResult)
        ensures
            !r.success,
            r.duration == duration,
            r.error matches Some(e) && e@ == error@,
            r.output_type is None,
    {
        ActionResult { success: false, duration, error: Some(error.to_owned()), output_type: None }
    }
}

// ============================================================================
// Contexts
// ============================================================================

/// Metadata that can be attached to middleware contexts.
#[derive(Debug, Default)]
pub struct ContextMetadata {
    /// User-defined tags for filtering/routing.
    pub tags: Vec<String>,
    /// Correlation ID for distributed tracing.
    pub correlation_id: Option<String>,
    /// Parent span ID for tracing.
    pub parent_span_id: Option<String>,
    /// Custom key-value pairs.
    pub custom: StringMap,
}

impl ContextMetadata {
    /// Create new empty metadata.
    pub fn new() -> (m: ContextMetadata)
        ensures
            m.tags@.len() == 0,
            m.correlation_id is None,
            m.parent_span_id is None,
            m.custom.wf(),
            m.custom@ == Map::<Seq<char>, Seq<char>>::empty(),
    {
        ContextMetadata {
            tags: Vec::new(),
            correlation_id: None,
            parent_span_id: None,
            custom: StringMap::new(),
        }
    }

    /// Add a tag.
    pub fn with_tag(self, tag: &str) -> (m: ContextMetadata)
        ensures
            m.tags@.len() == self.tags@.len() + 1,
            m.tags@.take(self.tags@.len() as int) == self.tags@,
            m.tags@.last()@ == tag@,
            m.correlation_id == self.correlation_id,
            m.parent_span_id == self.parent_span_id,
            m.custom == self.custom,
    {
        let mut m = self;
        m.tags.push(tag.to_owned());
        proof {
            assert(m.tags@.take(self.tags@.len() as int) =~= self.tags@);
        }
        m
    }

    /// Set correlation ID.
    pub fn with_correlation_id(self, id: &str) -> (m: ContextMetadata)
        ensures
            m.correlation_id matches Some(c) && c@ == id@,
            m.tags == self.tags,
            m.parent_span_id == self.parent_span_id,
            m.custom == self.custom,
    {
        let mut m = self;
        m.correlation_id = Some(id.to_owned());
        m
    }

    /// Add a custom key-value pair.
    pub fn with_custom(self, key: &str, value: &str) -> (m: ContextMetadata)
        requires
            self.custom.wf(),
        ensures
            m.custom.wf(),
            m.custom@ == self.custom@.insert(key@, value@),
            m.tags == self.tags,
            m.correlation_id == self.correlation_id,
            m.parent_span_id == self.parent_span_id,
    {
        let mut m = self;
        m.custom.insert(key.to_owned(), value.to_owned());
        m
    }
}

/// Context provided to middleware during mutation interception.
pub struct MiddlewareContext<'a, S: Store> {
    store: &'a S,
    mutation_name: &'static str,
    timestamp: CrossInstant,
    metadata: ContextMetadata,
}

impl<'a, S: Store> MiddlewareContext<'a, S> {
    /// The store the context is about.
    pub closed spec fn store_spec(&self) -> &'a S {
        self.store
    }

    /// The mutation name.
    pub closed spec fn mutation_spec(&self) -> &'static str {
        self.mutation_name
    }

    /// The metadata.
    pub closed spec fn metadata_spec(&self) -> ContextMetadata {
        self.metadata
    }

    /// The instant the context was created.
    pub closed spec fn timestamp_spec(&self) -> CrossInstant {
        self.timestamp
    }

    /// Create a new middleware context, timestamped now.
    pub fn new(store: &'a S, mutation_name: &'static str) -> (c: Self)
        ensures
            c.store_spec() == store,
            c.mutation_spec() == mutation_name,
            c.metadata_spec().tags@.len() == 0,
            c.metadata_spec().correlation_id is None,
    {
        MiddlewareContext {
            store,
            mutation_name,
            timestamp: CrossInstant::now(),
            metadata: ContextMetadata::new(),
        }
    }

    /// Get a reference to the store.
    pub fn store(&self) -> (r: &S)
        ensures
            r == self.store_spec(),
    {
        self.store
    }

    /// Get the current state (read-only).
    pub fn state(&self) -> S::State {
        self.store.state()
    }

    /// Get the mutation name.
    pub fn mutation_name(&self) -> (r: &'static str)
        ensures
            r == self.mutation_spec(),
    {
        self.mutation_name
    }

    /// Get the timestamp when this context was created.
    pub fn timestamp(&self) -> (r: CrossInstant)
        ensures
            r == self.timestamp_spec(),
    {
        self.timestamp
    }

    /// Get the elapsed time since context creation.
    pub fn elapsed(&self) -> Duration {
        self.timestamp.elapsed()
    }

    /// Get the store's unique identifier.
    pub fn store_id(&self) -> (r: StoreId)
        ensures
            self.store_spec().has_id(r),
    {
        self.store.id()
    }

    /// Get the store's name.
    pub fn store_name(&self) -> (r: &'static str)
        ensures
            self.store_spec().has_name(r),
    {
        self.store.name()
    }

    /// Get read-only access to metadata.
    pub fn metadata(&self) -> (r: &ContextMetadata)
        ensures
            *r == self.metadata_spec(),
    {
        &self.metadata
    }

    /// Get mutable access to the metadata.
    pub fn metadata_mut(&mut self) -> (r: &mut ContextMetadata)
        ensures
            *r == old(self).metadata_spec(),
            final(self).metadata_spec() == *final(r),
            final(self).store_spec() == old(self).store_spec(),
            final(self).mutation_spec() == old(self).mutation_spec(),
    {
        &mut self.metadata
    }
}

/// Context provided to middleware during action interception.
pub struct ActionContext<'a, S: Store> {
    store: &'a S,
    action_type: std::any::TypeId,
    action_name: &'static str,
    timestamp: CrossInstant,
    metadata: ContextMetadata,
}

impl<'a, S: Store> ActionContext<'a, S> {
    /// The store the context is about.
    pub closed spec fn store_spec(&self) -> &'a S {
        self.store
    }

    /// The action name.
    pub closed spec fn action_spec(&self) -> &'static str {
        self.action_name
    }

    /// The action type.
    pub closed spec fn action_type_spec(&self) -> std::any::TypeId {
        self.action_type
    }

    /// The metadata.
    pub closed spec fn metadata_spec(&self) -> ContextMetadata {
        self.metadata
    }

    /// The instant the context was created.
    pub closed spec fn timestamp_spec(&self) -> CrossInstant {
        self.timestamp
    }

    /// Create a new action context, timestamped now.
    pub fn new(store: &'a S, action_type: std::any::TypeId, action_name: &'static str) -> (c: Self)
        ensures
            c.store_spec() == store,
            c.action_spec() == action_name,
            c.action_type_spec() == action_type,
            c.metadata_spec().tags@.len() == 0,
            c.metadata_spec().correlation_id is None,
    {
        ActionContext {
            store,
            action_type,
            action_name,
            timestamp: CrossInstant::now(),
            metadata: ContextMetadata::new(),
        }
    }

    /// Get a reference to the store.
    pub fn store(&self) -> (r: &S)
        ensures
            r == self.store_spec(),
    {
        self.store
    }

    /// Get the current state (read-only).
    pub fn state(&self) -> S::State {
        self.store.state()
    }

    /// Get the action type ID.
    pub fn action_type(&self) -> (r: std::any::TypeId)
        ensures
            r == self.action_type_spec(),
    {
        self.action_type
    }

    /// Get the action name.
    pub fn action_name(&self) -> (r: &'static str)
        ensures
            r == self.action_spec(),
    {
        self.action_name
    }

    /// Get the timestamp when this context was created.
    pub fn timestamp(&self) -> (r: CrossInstant)
        ensures
            r == self.timestamp_spec(),
    {
        self.timestamp
    }

    /// Get the elapsed time since context creation.
    pub fn elapsed(&self) -> Duration {
        self.timestamp.elapsed()
    }

    /// Get the store's unique identifier.
    pub fn store_id(&self) -> (r: StoreId)
        ensures
            self.store_spec().has_id(r),
    {
        self.store.id()
    }

    /// Get the store's name.
    pub fn store_name(&self) -> (r: &'static str)
        ensures
            self.store_spec().has_name(r),
    {
        self.store.name()
    }

    /// Get read-only access to metadata.
    pub fn metadata(&self) -> (r: &ContextMetadata)
        ensures
            *r == self.metadata_spec(),
    {
        &self.metadata
    }

    /// Get mutable access to the metadata.
    pub fn metadata_mut(&mut self) -> (r: &mut ContextMetadata)
        ensures
            *r == old(self).metadata_spec(),
            final(self).metadata_spec() == *final(r),
            final(self).store_spec() == old(self).store_spec(),
            final(self).action_spec() == old(self).action_spec(),
            final(self).action_type_spec() == old(self).action_type_spec(),
    {
        &mut self.metadata
    }
}


// ============================================================================
// Middleware trait and chain
// ============================================================================

/// Middleware that intercepts store operations.
///
/// Each `before_*` hook returns a [`MiddlewareResult`] that controls whether
/// the operation continues, skips the remaining middleware, or aborts.
/// Implemented by the users of the library.
pub trait Middleware<S: Store>: Send + Sync {
    /// Called before a mutation is executed.
    fn before_mutate(&self, ctx: &MiddlewareContext<S>) -> (r: MiddlewareResult)
        default_ensures
            r is Continue,
    {
        MiddlewareResult::Continue
    }

    /// Called after a mutation is executed.
    fn after_mutate(&self, ctx: &MiddlewareContext<S>, result: &MutationResult) {
    }

    /// Called before an action is executed.
    fn before_action(&self, ctx: &ActionContext<S>) -> (r: MiddlewareResult)
        default_ensures
            r is Continue,
    {
        MiddlewareResult::Continue
    }

    /// Called after an action is executed.
    fn after_action(&self, ctx: &ActionContext<S>, result: &ActionResult) {
    }

    /// The middleware name, for debugging.
    fn name(&self) -> (r: &'static str)
        default_ensures
            r@ == "Middleware"@,
    {
        "Middleware"
    }

    /// The middleware priority (higher runs first).
    fn priority(&self) -> (r: i32)
        default_ensures
            r == 0,
    {
        0
    }
}

/// A middleware shared through an `Arc`, forwarding every hook to it.
pub struct SharedMiddleware<M: ?Sized> {
    inner: Arc<M>,
}

impl<M: ?Sized> SharedMiddleware<M> {
    /// The shared middleware.
    pub closed spec fn shared(&self) -> Arc<M> {
        self.inner
    }
}

impl<S: Store, M: ?Sized + Middleware<S>> Middleware<S> for SharedMiddleware<M> {
    fn before_mutate(&self, ctx: &MiddlewareContext<S>) -> (r: MiddlewareResult)
        ensures
            call_ensures(M::before_mutate, (&*self.shared(), ctx), r),
    {
        self.inner.before_mutate(ctx)
    }

    fn after_mutate(&self, ctx: &MiddlewareContext<S>, result: &MutationResult) {
        self.inner.after_mutate(ctx, result)
    }

    fn before_action(&self, ctx: &ActionContext<S>) -> (r: MiddlewareResult)
        ensures
            call_ensures(M::before_action, (&*self.shared(), ctx), r),
    {
        self.inner.before_action(ctx)
    }

    fn after_action(&self, ctx: &ActionContext<S>, result: &ActionResult) {
        self.inner.after_action(ctx, result)
    }

    fn name(&self) -> &'static str {
        self.inner.name()
    }

    fn priority(&self) -> i32 {
        self.inner.priority()
    }
}


/// A middleware shared through an `Arc` (as `MiddlewareChain::add_arc`
/// adds it) answers `before_mutate` with exactly the result the shared
/// middleware gave.
pub proof fn law_shared_middleware_before_mutate<S: Store, M: ?Sized + Middleware<S>>(
    w: &SharedMiddleware<M>,
    ctx: &MiddlewareContext<S>,
    r: MiddlewareResult,
)
    requires
        call_ensures(<SharedMiddleware<M> as Middleware<S>>::before_mutate, (w, ctx), r),
    ensures
        call_ensures(M::before_mutate, (&*w.shared(), ctx), r),
{
}

/// A middleware shared through an `Arc` answers `before_action` with
/// exactly the result the shared middleware gave.
pub proof fn law_shared_middleware_before_action<S: Store, M: ?Sized + Middleware<S>>(
    w: &SharedMiddleware<M>,
    ctx: &ActionContext<S>,
    r: MiddlewareResult,
)
    requires
        call_ensures(<SharedMiddleware<M> as Middleware<S>>::before_action, (w, ctx), r),
    ensures
        call_ensures(M::before_action, (&*w.shared(), ctx), r),
{
}

/// A mutation run through a middleware store ends as the chain's verdict on
/// it decides: when a middleware aborted, it fails with that abort's message
/// and the mutation is not run; otherwise the mutation runs and succeeds.
pub proof fn law_mutate_follows_verdict<S: Store, F: FnOnce()>(
    store: &MiddlewareStore<S>,
    mutation_name: &'static str,
    mutate_fn: F,
    r: Result<(), StoreError>,
)
    requires
        call_ensures(MiddlewareStore::<S>::mutate::<F>, (store, mutation_name, mutate_fn), r),
    ensures
        exists|ctx: MiddlewareContext<S>, before: MiddlewareResult|
            #[trigger] call_ensures(MiddlewareStore::<S>::run_before_mutate, (store, &ctx), before) && {
                &&& before matches MiddlewareResult::Abort(e) ==> (r matches Err(StoreError::MutationFailed(m))
                    && m@ == e.message_spec())
                &&& !(before is Abort) ==> r is Ok && mutate_fn.ensures((), ())
            },
{
}

/// An action dispatched through a middleware store ends as the chain's
/// verdict on it decides: when a middleware aborted, it fails with that
/// abort's message and the action is not run; otherwise the action runs and
/// its output is returned.
pub proof fn law_dispatch_follows_verdict<S: Store, F: FnOnce() -> R, R>(
    store: &MiddlewareStore<S>,
    action_name: &'static str,
    action_type: std::any::TypeId,
    action_fn: F,
    r: Result<R, StoreError>,
)
    requires
        call_ensures(MiddlewareStore::<S>::dispatch::<F, R>, (store, action_name, action_type, action_fn), r),
    ensures
        exists|ctx: ActionContext<S>, before: MiddlewareResult|
            #[trigger] call_ensures(MiddlewareStore::<S>::run_before_action, (store, &ctx), before) && {
                &&& before matches MiddlewareResult::Abort(e) ==> (r matches Err(StoreError::MutationFailed(m))
                    && m@ == e.message_spec())
                &&& !(before is Abort) ==> (r matches Ok(out) && action_fn.ensures((), out))
            },
{
}

/// What a `before_*` hook's result means for the rest of the chain.
pub enum ChainStep {
    /// Run the next middleware.
    Next,
    /// Stop running middleware; the operation goes ahead.
    Stop,
    /// Stop and abort the operation with this result.
    Abort(MiddlewareResult),
}

/// How the chain reacts to one middleware's `before_*` result: an abort
/// stops the chain and is returned, a skip stops the chain, anything else
/// moves on to the next middleware.
pub fn chain_step(result: MiddlewareResult) -> (step: ChainStep)
    ensures
        result is Abort ==> step == ChainStep::Abort(result),
        result is Skip ==> step is Stop,
        (result is Continue || result is Transform) ==> step is Next,
{
    match result {
        MiddlewareResult::Abort(e) => ChainStep::Abort(MiddlewareResult::Abort(e)),
        MiddlewareResult::Skip => ChainStep::Stop,
        _ => ChainStep::Next,
    }
}

/// A chain of middleware that processes operations in priority order.
///
/// `before_*` hooks run highest priority first; `after_*` hooks run in the
/// reverse order. Middleware of equal priority keep the order in which they
/// were added.
#[verifier::reject_recursive_types(S)]
pub struct MiddlewareChain<S: Store> {
    middleware: Vec<Box<dyn Middleware<S>>>,
    sorted: bool,
    priorities: Ghost<Seq<i32>>,
    mutate_log: Ghost<Seq<MiddlewareResult>>,
    action_log: Ghost<Seq<MiddlewareResult>>,
}

/// The result lets the chain go on to the next middleware.
pub open spec fn passes_on(r: MiddlewareResult) -> bool {
    r is Continue || r is Transform
}

/// `r` is what a chain of `n` middleware answers when they returned
/// `results`, in the order they ran: the chain stops at the first `Abort`,
/// which it returns, or at the first `Skip`, and answers `Continue`;
/// when every middleware passes on, it answers `Continue` too.
pub open spec fn chain_verdict(results: Seq<MiddlewareResult>, n: nat, r: MiddlewareResult) -> bool {
    &&& results.len() <= n
    &&& forall|i: int| 0 <= i < results.len() - 1 ==> passes_on(#[trigger] results[i])
    &&& match r {
        MiddlewareResult::Abort(_) => results.len() > 0 && results.last() == r,
        MiddlewareResult::Continue => (results.len() == n && (n == 0 || passes_on(results.last())))
            || (results.len() > 0 && results.last() is Skip),
        _ => false,
    }
}

/// The priorities are in descending order.
pub open spec fn descending(p: Seq<i32>) -> bool {
    forall|a: int, b: int| 0 <= a < b < p.len() ==> #[trigger] p[a] >= #[trigger] p[b]
}

impl<S: Store> MiddlewareChain<S> {
    /// A sorted chain holds, for each middleware, the priority it reported
    /// when the chain was sorted, and these descend.
    #[verifier::type_invariant]
    spec fn sorted_by_priority(&self) -> bool {
        self.sorted ==> self.priorities@.len() == self.middleware@.len() && descending(self.priorities@)
    }

    /// The middleware, in their current order.
    pub closed spec fn entries(&self) -> Seq<Box<dyn Middleware<S>>> {
        self.middleware@
    }

    /// The priorities the middleware reported when the chain was last
    /// sorted, in chain order.
    pub closed spec fn sort_priorities(&self) -> Seq<i32> {
        self.priorities@
    }

    /// `self` is `before` put in priority order: unchanged if `before` was
    /// already sorted, otherwise its middleware stably sorted by the
    /// priorities they reported, highest first.
    pub open spec fn sorted_from(&self, before: Self) -> bool {
        &&& self.in_priority_order()
        &&& before.is_sorted() ==> self.entries() == before.entries() && self.sort_priorities()
            == before.sort_priorities()
        &&& !before.is_sorted() ==> exists|origin: Seq<int>|
            is_index_permutation(origin, before.entries().len() as int) && descending_stable(
                self.sort_priorities(),
                origin,
            ) && forall|k: int|
                0 <= k < origin.len() ==> self.entries()[k] == before.entries()[#[trigger] origin[k]]
    }

    /// Recording results leaves the order of a chain as it was.
    proof fn lemma_order_kept(a: Self, b: Self, before: Self)
        requires
            a.sorted_from(before),
            a.middleware@ == b.middleware@,
            a.sorted == b.sorted,
            a.priorities == b.priorities,
        ensures
            b.sorted_from(before),
    {
        assert(a.entries() == b.entries());
    }

    /// The results the middleware returned during the last
    /// `before_mutate`, in the order they ran (the chain's order).
    pub closed spec fn mutate_results(&self) -> Seq<MiddlewareResult> {
        self.mutate_log@
    }

    /// The results the middleware returned during the last
    /// `before_action`, in the order they ran (the chain's order).
    pub closed spec fn action_results(&self) -> Seq<MiddlewareResult> {
        self.action_log@
    }

    /// The chain is sorted, and its middleware run highest reported
    /// priority first.
    pub open spec fn in_priority_order(&self) -> bool {
        &&& self.is_sorted()
        &&& self.sort_priorities().len() == self.entries().len()
        &&& descending(self.sort_priorities())
    }

    /// Whether the chain is known to be in priority order.
    pub closed spec fn is_sorted(&self) -> bool {
        self.sorted
    }

    /// Create a new empty middleware chain.
    pub fn new() -> (c: Self)
        ensures
            c.entries().len() == 0,
            c.in_priority_order(),
    {
        MiddlewareChain {
            middleware: Vec::new(),
            sorted: true,
            priorities: Ghost(Seq::empty()),
            mutate_log: Ghost(Seq::empty()),
            action_log: Ghost(Seq::empty()),
        }
    }

    /// Add middleware to the chain.
    pub fn add<M: Middleware<S> + 'static>(&mut self, middleware: M)
        ensures
            final(self).entries().len() == old(self).entries().len() + 1,
            final(self).entries().take(old(self).entries().len() as int) == old(self).entries(),
            !final(self).is_sorted(),
    {
        self.sorted = false;
        let mut list: Vec<Box<dyn Middleware<S>>> = Vec::new();
        std::mem::swap(&mut list, &mut self.middleware);
        let boxed: Box<dyn Middleware<S>> = Box::new(middleware);
        push_item(&mut list, boxed);
        std::mem::swap(&mut list, &mut self.middleware);
    }

    /// Add middleware shared through an `Arc`.
    pub fn add_arc<M: ?Sized + Middleware<S> + 'static>(&mut self, middleware: Arc<M>)
        ensures
            final(self).entries().len() == old(self).entries().len() + 1,
            final(self).entries().take(old(self).entries().len() as int) == old(self).entries(),
            !final(self).is_sorted(),
    {
        self.add(SharedMiddleware { inner: middleware });
    }

    /// Get the number of middleware in the chain.
    pub fn len(&self) -> (n: usize)
        ensures
            n == self.entries().len(),
    {
        self.middleware.len()
    }

    /// Check if the chain is empty.
    pub fn is_empty(&self) -> (b: bool)
        ensures
            b == (self.entries().len() == 0),
    {
        self.middleware.len() == 0
    }

    /// Sorts the middleware by priority, highest first and stable among
    /// equal priorities, unless already sorted.
    #[verifier::spinoff_prover]
    fn ensure_sorted(&mut self)
        ensures
            final(self).sorted_from(*old(self)),
            final(self).entries().len() == old(self).entries().len(),
            is_rearrangement(final(self).middleware@, old(self).middleware@),
    {
        proof {
            use_type_invariant(&*self);
        }
        if !self.sorted {
            let mut keys: Vec<i32> = Vec::new();
            let mut i: usize = 0;
            while i < self.middleware.len()
                invariant
                    keys.len() == i,
                    i <= self.middleware.len(),
                decreases self.middleware.len() - i,
            {
                keys.push(self.middleware[i].priority());
                i = i + 1;
            }
            let mut list: Vec<Box<dyn Middleware<S>>> = Vec::new();
            std::mem::swap(&mut list, &mut self.middleware);
            let origin = sort_by_priority(&mut list, &mut keys);
            std::mem::swap(&mut list, &mut self.middleware);
            self.priorities = Ghost(keys@);
            self.sorted = true;
            proof {
                let o = origin@;
                assert(is_index_permutation(o, old(self).middleware@.len() as int));
                assert(forall|k: int|
                    0 <= k < o.len() ==> self.middleware@[k] == old(self).middleware@[#[trigger] o[k]]);
                assert(exists|origin: Seq<int>|
                    is_index_permutation(origin, old(self).middleware@.len() as int) && forall|k: int|
                        0 <= k < origin.len() ==> self.middleware@[k] == old(self).middleware@[#[trigger] origin[k]]);
            }
        } else {
            proof {
                let origin = Seq::new(self.middleware@.len(), |k: int| k);
                assert(is_index_permutation(origin, self.middleware@.len() as int));
                assert(forall|k: int|
                    0 <= k < origin.len() ==> self.middleware@[k] == self.middleware@[#[trigger] origin[k]]);
                assert(exists|o: Seq<int>|
                    is_index_permutation(o, old(self).middleware@.len() as int) && forall|k: int|
                        0 <= k < o.len() ==> self.middleware@[k] == old(self).middleware@[#[trigger] o[k]]);
            }
        }
    }

    /// Execute `before_mutate` on all middleware, highest priority first.
    ///
    /// Returns the first `Abort` result; a `Skip` stops the chain; otherwise
    /// `Continue`.
    pub fn before_mutate(&mut self, ctx: &MiddlewareContext<S>) -> (r: MiddlewareResult)
        ensures
            chain_verdict(final(self).mutate_results(), final(self).entries().len(), r),
            final(self).sorted_from(*old(self)),
            final(self).entries().len() == old(self).entries().len(),
            is_rearrangement(final(self).entries(), old(self).entries()),
    {
        self.ensure_sorted();
        let ghost sorted_entries = self.middleware@;
        let ghost sorted_self = *self;
        let ghost mut log: Seq<MiddlewareResult> = Seq::empty();
        let n = self.middleware.len();
        let mut i: usize = 0;
        while i < n
            invariant
                n == self.middleware@.len(),
                i <= n,
                log.len() == i,
                forall|j: int| 0 <= j < i ==> passes_on(#[trigger] log[j]),
                self.sorted,
                self.middleware@.len() == old(self).middleware@.len(),
                self.middleware@ == sorted_entries,
                *self == sorted_self,
                sorted_self.sorted_from(*old(self)),
                is_rearrangement(sorted_entries, old(self).middleware@),
            decreases n - i,
        {
            let res = self.middleware[i].before_mutate(ctx);
            proof {
                log = log.push(res);
            }
            match chain_step(res) {
                ChainStep::Abort(result) => {
                    self.mutate_log = Ghost(log);
                    proof {
                        Self::lemma_order_kept(sorted_self, *self, *old(self));
                    }
                    return result;
                },
                ChainStep::Stop => {
                    self.mutate_log = Ghost(log);
                    proof {
                        Self::lemma_order_kept(sorted_self, *self, *old(self));
                    }
                    return MiddlewareResult::Continue;
                },
                ChainStep::Next => {},
            }
            i = i + 1;
        }
        self.mutate_log = Ghost(log);
        MiddlewareResult::Continue
    }

    /// Execute `after_mutate` on all middleware, lowest priority first.
    pub fn after_mutate(&mut self, ctx: &MiddlewareContext<S>, result: &MutationResult)
        ensures
            final(self).sorted_from(*old(self)),
            final(self).entries().len() == old(self).entries().len(),
            is_rearrangement(final(self).entries(), old(self).entries()),
    {
        self.ensure_sorted();
        let ghost sorted_entries = self.middleware@;
        let ghost sorted_self = *self;
        let mut i: usize = self.middleware.len();
        while i > 0
            invariant
                i <= self.middleware.len(),
                self.sorted,
                self.middleware@.len() == old(self).middleware@.len(),
                self.middleware@ == sorted_entries,
                *self == sorted_self,
                sorted_self.sorted_from(*old(self)),
                is_rearrangement(sorted_entries, old(self).middleware@),
            decreases i,
        {
            i = i - 1;
            self.middleware[i].after_mutate(ctx, result);
        }
    }

    /// Execute `before_action` on all middleware, highest priority first.
    ///
    /// Returns the first `Abort` result; a `Skip` stops the chain; otherwise
    /// `Continue`.
    pub fn before_action(&mut self, ctx: &ActionContext<S>) -> (r: MiddlewareResult)
        ensures
            chain_verdict(final(self).action_results(), final(self).entries().len(), r),
            final(self).sorted_from(*old(self)),
            final(self).entries().len() == old(self).entries().len(),
            is_rearrangement(final(self).entries(), old(self).entries()),
    {
        self.ensure_sorted();
        let ghost sorted_entries = self.middleware@;
        let ghost sorted_self = *self;
        let ghost mut log: Seq<MiddlewareResult> = Seq::empty();
        let n = self.middleware.len();
        let mut i: usize = 0;
        while i < n
            invariant
                n == self.middleware@.len(),
                i <= n,
                log.len() == i,
                forall|j: int| 0 <= j < i ==> passes_on(#[trigger] log[j]),
                self.sorted,
                self.middleware@.len() == old(self).middleware@.len(),
                self.middleware@ == sorted_entries,
                *self == sorted_self,
                sorted_self.sorted_from(*old(self)),
                is_rearrangement(sorted_entries, old(self).middleware@),
            decreases n - i,
        {
            let res = self.middleware[i].before_action(ctx);
            proof {
                log = log.push(res);
            }
            match chain_step(res) {
                ChainStep::Abort(result) => {
                    self.action_log = Ghost(log);
                    proof {
                        Self::lemma_order_kept(sorted_self, *self, *old(self));
                    }
                    return result;
                },
                ChainStep::Stop => {
                    self.action_log = Ghost(log);
                    proof {
                        Self::lemma_order_kept(sorted_self, *self, *old(self));
                    }
                    return MiddlewareResult::Continue;
                },
                ChainStep::Next => {},
            }
            i = i + 1;
        }
        self.action_log = Ghost(log);
        MiddlewareResult::Continue
    }

    /// Execute `after_action` on all middleware, lowest priority first.
    pub fn after_action(&mut self, ctx: &ActionContext<S>, result: &ActionResult)
        ensures
            final(self).sorted_from(*old(self)),
            final(self).entries().len() == old(self).entries().len(),
            is_rearrangement(final(self).entries(), old(self).entries()),
    {
        self.ensure_sorted();
        let ghost sorted_entries = self.middleware@;
        let ghost sorted_self = *self;
        let mut i: usize = self.middleware.len();
        while i > 0
            invariant
                i <= self.middleware.len(),
                self.sorted,
                self.middleware@.len() == old(self).middleware@.len(),
                self.middleware@ == sorted_entries,
                *self == sorted_self,
                sorted_self.sorted_from(*old(self)),
                is_rearrangement(sorted_entries, old(self).middleware@),
            decreases i,
        {
            i = i - 1;
            self.middleware[i].after_action(ctx, result);
        }
    }

    /// The names of the middleware, in their current order.
    pub fn names(&self) -> (r: Vec<&'static str>)
        ensures
            r.len() == self.entries().len(),
    {
        let mut r: Vec<&'static str> = Vec::new();
        let mut i: usize = 0;
        while i < self.middleware.len()
            invariant
                r.len() == i,
                i <= self.middleware.len(),
            decreases self.middleware.len() - i,
        {
            r.push(self.middleware[i].name());
            i = i + 1;
        }
        r
    }
}


// ============================================================================
// Event bus
// ============================================================================

/// Events emitted by stores for observation.
#[derive(Debug, Clone)]
pub enum StoreEvent {
    /// State has changed.
    StateChanged {
        /// The store that changed.
        store_id: StoreId,
        /// Store name for debugging.
        store_name: &'static str,
        /// Timestamp of the change (milliseconds since epoch).
        timestamp: u64,
    },
    /// A mutation has started.
    MutationStarted {
        /// The store being mutated.
        store_id: StoreId,
        /// Name of the mutation.
        name: &'static str,
        /// Timestamp when started.
        timestamp: u64,
    },
    /// A mutation has completed.
    MutationCompleted {
        /// The store that was mutated.
        store_id: StoreId,
        /// Name of the mutation.
        name: &'static str,
        /// Duration in milliseconds.
        duration_ms: u64,
        /// Whether it succeeded.
        success: bool,
    },
    /// An action has been dispatched.
    ActionDispatched {
        /// The store handling the action.
        store_id: StoreId,
        /// Type of the action.
        action_type: std::any::TypeId,
        /// Name of the action.
        action_name: &'static str,
        /// Timestamp when dispatched.
        timestamp: u64,
    },
    /// An action has completed.
    ActionCompleted {
        /// The store that handled the action.
        store_id: StoreId,
        /// Name of the action.
        action_name: &'static str,
        /// Duration in milliseconds.
        duration_ms: u64,
        /// Whether it succeeded.
        success: bool,
    },
    /// An error occurred.
    Error {
        /// The store where the error occurred.
        store_id: StoreId,
        /// Error description.
        message: String,
        /// Source of the error.
        source: ErrorSource,
    },
    /// A store asked for cached data derived from it to be invalidated.
    CacheInvalidated {
        /// The store whose change triggered the invalidation.
        source_store_id: StoreId,
        /// Optional scope of the invalidation.
        scope: Option<&'static str>,
        /// Timestamp of the invalidation.
        timestamp: u64,
    },
}

/// Source of an error event.
#[derive(Debug, Clone, Copy, PartialEq, Eq, Structural)]
pub enum ErrorSource {
    /// Error occurred during mutation.
    Mutation,
    /// Error occurred during action.
    Action,
    /// Error occurred in middleware.
    Middleware,
    /// Error occurred during persistence.
    Persistence,
    /// Unknown or other source.
    Unknown,
}

/// A subscriber that receives store events.
///
/// Implemented by the users of the library.
pub trait EventSubscriber: Send + Sync {
    /// Called when a store event occurs.
    fn on_event(&self, event: &StoreEvent);

    /// The subscriber name, for debugging.
    fn name(&self) -> (r: &'static str)
        default_ensures
            r@ == "EventSubscriber"@,
    {
        "EventSubscriber"
    }

    /// Whether this subscriber wants `event`; `true` receives it.
    fn filter(&self, event: &StoreEvent) -> (r: bool)
        default_ensures
            r,
    {
        true
    }
}

/// A subscriber shared through an `Arc`, forwarding to it.
pub struct SharedSubscriber<E: ?Sized> {
    inner: Arc<E>,
}

impl<E: ?Sized + EventSubscriber> EventSubscriber for SharedSubscriber<E> {
    fn on_event(&self, event: &StoreEvent) {
        self.inner.on_event(event)
    }

    fn name(&self) -> &'static str {
        self.inner.name()
    }

    fn filter(&self, event: &StoreEvent) -> bool {
        self.inner.filter(event)
    }
}


/// A second handle on a shared value (`Arc::clone`): it points at the same
/// value.
#[verifier::external_body]
pub(crate) fn share<T: ?Sized>(a: &Arc<T>) -> (r: Arc<T>)
    ensures
        r == *a,
{
    Arc::clone(a)
}

/// Delivers `event` to one subscriber if its filter accepts it.
pub fn deliver(subscriber: &dyn EventSubscriber, event: &StoreEvent) {
    if subscriber.filter(event) {
        subscriber.on_event(event);
    }
}

/// Any list of subscribers may be held by the bus.
pub struct AnySubscribers;

impl RwLockPredicate<Vec<Box<dyn EventSubscriber>>> for AnySubscribers {
    open spec fn inv(self, v: Vec<Box<dyn EventSubscriber>>) -> bool {
        true
    }
}

/// An event bus that distributes store events to subscribers.
///
/// Subscribers are held behind a lock, so the bus can be shared between
/// stores and subscribed to through a shared reference.
pub struct EventBus {
    subscribers: RwLock<Vec<Box<dyn EventSubscriber>>, AnySubscribers>,
}

impl EventBus {
    /// Create a new event bus with no subscribers.
    pub fn new() -> EventBus {
        EventBus { subscribers: RwLock::new(Vec::new(), Ghost(AnySubscribers)) }
    }

    /// Subscribe to events.
    pub fn subscribe<E: EventSubscriber + 'static>(&self, subscriber: E)
        ensures
            exists|taken: Vec<Box<dyn EventSubscriber>>, h: WriteHandle<Vec<Box<dyn EventSubscriber>>, AnySubscribers>, stored: Vec<Box<dyn EventSubscriber>>|
                #![trigger call_ensures(RwLock::<Vec<Box<dyn EventSubscriber>>, AnySubscribers>::acquire_write, (&self.subscribers_spec(),), (taken, h)), call_ensures(WriteHandle::<Vec<Box<dyn EventSubscriber>>, AnySubscribers>::release_write, (h, stored), ())]
                call_ensures(RwLock::<Vec<Box<dyn EventSubscriber>>, AnySubscribers>::acquire_write, (&self.subscribers_spec(),), (taken, h))
                    && call_ensures(WriteHandle::<Vec<Box<dyn EventSubscriber>>, AnySubscribers>::release_write, (h, stored), ())
                    && stored.len() == taken.len() + 1,
    {
        let (mut subs, handle) = self.subscribers.acquire_write();
        let ghost taken = subs;
        let ghost h = handle;
        assert(call_ensures(RwLock::<Vec<Box<dyn EventSubscriber>>, AnySubscribers>::acquire_write, (&self.subscribers_spec(),), (taken, h)));
        let boxed: Box<dyn EventSubscriber> = Box::new(subscriber);
        push_item(&mut subs, boxed);
        let ghost stored = subs;
        handle.release_write(subs);
        assert(call_ensures(WriteHandle::<Vec<Box<dyn EventSubscriber>>, AnySubscribers>::release_write, (h, stored), ()));
    }

    /// Subscribe with a subscriber shared through an `Arc`.
    pub fn subscribe_arc<E: ?Sized + EventSubscriber + 'static>(&self, subscriber: Arc<E>) {
        self.subscribe(SharedSubscriber { inner: subscriber });
    }

    /// Emit an event to every subscriber whose filter accepts it, in the
    /// order they subscribed.
    pub fn emit(&self, event: StoreEvent) {
        let handle = self.subscribers.acquire_read();
        let subs = handle.borrow();
        let mut i: usize = 0;
        while i < subs.len()
            decreases subs.len() - i,
        {
            deliver(&*subs[i], &event);
            i = i + 1;
        }
        handle.release_read();
    }

    /// Get the number of subscribers.
    pub fn subscriber_count(&self) -> (r: usize)
        ensures
            exists|h: ReadHandle<Vec<Box<dyn EventSubscriber>>, AnySubscribers>|
                #[trigger] call_ensures(RwLock::<Vec<Box<dyn EventSubscriber>>, AnySubscribers>::acquire_read, (&self.subscribers_spec(),), h) && r
                    == h.view().len(),
    {
        let handle = self.subscribers.acquire_read();
        assert(call_ensures(RwLock::<Vec<Box<dyn EventSubscriber>>, AnySubscribers>::acquire_read, (&self.subscribers_spec(),), handle));
        let n = handle.borrow().len();
        handle.release_read();
        n
    }

    /// Remove all subscribers.
    pub fn clear(&self)
        ensures
            exists|taken: Vec<Box<dyn EventSubscriber>>, h: WriteHandle<Vec<Box<dyn EventSubscriber>>, AnySubscribers>, stored: Vec<Box<dyn EventSubscriber>>|
                #![trigger call_ensures(RwLock::<Vec<Box<dyn EventSubscriber>>, AnySubscribers>::acquire_write, (&self.subscribers_spec(),), (taken, h)), call_ensures(WriteHandle::<Vec<Box<dyn EventSubscriber>>, AnySubscribers>::release_write, (h, stored), ())]
                call_ensures(RwLock::<Vec<Box<dyn EventSubscriber>>, AnySubscribers>::acquire_write, (&self.subscribers_spec(),), (taken, h))
                    && call_ensures(WriteHandle::<Vec<Box<dyn EventSubscriber>>, AnySubscribers>::release_write, (h, stored), ()) && stored.len() == 0,
    {
        let (subs, handle) = self.subscribers.acquire_write();
        let ghost taken = subs;
        let ghost h = handle;
        assert(call_ensures(RwLock::<Vec<Box<dyn EventSubscriber>>, AnySubscribers>::acquire_write, (&self.subscribers_spec(),), (taken, h)));
        let empty: Vec<Box<dyn EventSubscriber>> = Vec::new();
        let ghost stored = empty;
        handle.release_write(empty);
        assert(call_ensures(WriteHandle::<Vec<Box<dyn EventSubscriber>>, AnySubscribers>::release_write, (h, stored), ()));
    }

    /// The lock holding the subscribers.
    pub closed spec fn subscribers_spec(&self) -> RwLock<Vec<Box<dyn EventSubscriber>>, AnySubscribers> {
        self.subscribers
    }
}


// ============================================================================
// Middleware-enabled store
// ============================================================================

/// What the `before_*` hooks' result means for the operation: when a
/// middleware aborted, the message the operation fails with; otherwise
/// `None`, and the operation runs.
pub fn abort_message(before: &MiddlewareResult) -> (r: Option<String>)
    ensures
        match before {
            MiddlewareResult::Abort(e) => r matches Some(m) && m@ == e.message_spec(),
            _ => r is None,
        },
{
    match before {
        MiddlewareResult::Abort(e) => Some(e.message()),
        _ => None,
    }
}

/// `r` is how a mutation ends when the hooks answered `before`: an abort
/// fails with the abort's message (and the mutation does not run);
/// otherwise the mutation ran and succeeded.
pub open spec fn mutation_finished<F: FnOnce()>(before: MiddlewareResult, mutate_fn: F, r: Result<(), StoreError>) -> bool {
    match before {
        MiddlewareResult::Abort(e) => r matches Err(StoreError::MutationFailed(m)) && m@ == e.message_spec(),
        _ => r is Ok && mutate_fn.ensures((), ()),
    }
}

/// `r` is how an action ends when the hooks answered `before`: an abort
/// fails with the abort's message (and the action does not run);
/// otherwise the action ran and its output is returned.
pub open spec fn action_finished<F: FnOnce() -> R, R>(before: MiddlewareResult, action_fn: F, r: Result<R, StoreError>) -> bool {
    match before {
        MiddlewareResult::Abort(e) => r matches Err(StoreError::MutationFailed(m)) && m@ == e.message_spec(),
        _ => r matches Ok(out) && action_fn.ensures((), out),
    }
}

/// Finish a mutation once the `before_mutate` hooks answered `before`: an
/// abort fails with the abort's message and the mutation is not run;
/// otherwise the mutation runs and succeeds.
pub fn finish_mutation<F: FnOnce()>(before: &MiddlewareResult, mutate_fn: F) -> (r: Result<(), StoreError>)
    requires
        mutate_fn.requires(()),
    ensures
        mutation_finished(*before, mutate_fn, r),
{
    match before {
        MiddlewareResult::Abort(e) => Err(StoreError::MutationFailed(e.message())),
        _ => {
            mutate_fn();
            Ok(())
        },
    }
}

/// Finish an action once the `before_action` hooks answered `before`: an
/// abort fails with the abort's message and the action is not run;
/// otherwise the action runs and its output is returned.
pub fn finish_action<F: FnOnce() -> R, R>(before: &MiddlewareResult, action_fn: F) -> (r: Result<R, StoreError>)
    requires
        action_fn.requires(()),
    ensures
        action_finished(*before, action_fn, r),
{
    match before {
        MiddlewareResult::Abort(e) => Err(StoreError::MutationFailed(e.message())),
        _ => Ok(action_fn()),
    }
}

/// Any middleware chain may be held by a store.
pub struct AnyChain;

impl<S: Store> RwLockPredicate<MiddlewareChain<S>> for AnyChain {
    open spec fn inv(self, v: MiddlewareChain<S>) -> bool {
        true
    }
}

/// A store wrapper that runs middleware around mutations and actions and
/// reports them on an event bus.
///
/// Clones share the middleware chain and the event bus.
#[verifier::reject_recursive_types(S)]
pub struct MiddlewareStore<S: Store> {
    inner: S,
    middleware: Arc<RwLock<MiddlewareChain<S>, AnyChain>>,
    event_bus: Arc<EventBus>,
}

impl<S: Store> Clone for MiddlewareStore<S> {
    fn clone(&self) -> (r: Self)
        ensures
            r.middleware_spec() == self.middleware_spec(),
            r.event_bus_spec() == self.event_bus_spec(),
    {
        MiddlewareStore {
            inner: self.inner.clone(),
            middleware: share(&self.middleware),
            event_bus: share(&self.event_bus),
        }
    }
}

impl<S: Store> MiddlewareStore<S> {
    /// The wrapped store.
    pub closed spec fn inner_spec(&self) -> S {
        self.inner
    }

    /// The shared middleware chain.
    pub closed spec fn middleware_spec(&self) -> Arc<RwLock<MiddlewareChain<S>, AnyChain>> {
        self.middleware
    }

    /// The event bus the store reports on.
    pub closed spec fn event_bus_spec(&self) -> Arc<EventBus> {
        self.event_bus
    }

    /// Create a middleware-enabled store with an empty chain and its own
    /// event bus.
    pub fn new(store: S) -> (r: Self)
        ensures
            r.inner_spec() == store,
    {
        MiddlewareStore {
            inner: store,
            middleware: Arc::new(RwLock::new(MiddlewareChain::new(), Ghost(AnyChain))),
            event_bus: Arc::new(EventBus::new()),
        }
    }

    /// Create a middleware-enabled store that reports on a shared event bus.
    pub fn with_event_bus(store: S, event_bus: Arc<EventBus>) -> (r: Self)
        ensures
            r.inner_spec() == store,
            r.event_bus_spec() == event_bus,
    {
        MiddlewareStore {
            inner: store,
            middleware: Arc::new(RwLock::new(MiddlewareChain::new(), Ghost(AnyChain))),
            event_bus,
        }
    }

    /// Get the inner store.
    pub fn inner(&self) -> (r: &S)
        ensures
            *r == self.inner_spec(),
    {
        &self.inner
    }

    /// Get mutable access to the inner store.
    pub fn inner_mut(&mut self) -> (r: &mut S)
        ensures
            *r == old(self).inner_spec(),
            final(self).inner_spec() == *final(r),
            final(self).middleware_spec() == old(self).middleware_spec(),
            final(self).event_bus_spec() == old(self).event_bus_spec(),
    {
        &mut self.inner
    }

    /// Add middleware to this store's chain.
    pub fn add_middleware<M: Middleware<S> + 'static>(&self, middleware: M) {
        let (mut chain, handle) = self.middleware.acquire_write();
        chain.add(middleware);
        handle.release_write(chain);
    }

    /// Subscribe to events from this store.
    pub fn subscribe<E: EventSubscriber + 'static>(&self, subscriber: E) {
        self.event_bus.subscribe(subscriber);
    }

    /// Get the event bus.
    pub fn event_bus(&self) -> (r: &Arc<EventBus>)
        ensures
            *r == self.event_bus_spec(),
    {
        &self.event_bus
    }

    /// Run the chain's `before_mutate` hooks: its verdict on `ctx`.
    pub fn run_before_mutate(&self, ctx: &MiddlewareContext<S>) -> (r: MiddlewareResult)
        ensures
            r is Continue || r is Abort,
    {
        let (mut chain, handle) = self.middleware.acquire_write();
        let r = chain.before_mutate(ctx);
        handle.release_write(chain);
        r
    }

    fn run_after_mutate(&self, ctx: &MiddlewareContext<S>, result: &MutationResult) {
        let (mut chain, handle) = self.middleware.acquire_write();
        chain.after_mutate(ctx, result);
        handle.release_write(chain);
    }

    /// Run the chain's `before_action` hooks: its verdict on `ctx`.
    pub fn run_before_action(&self, ctx: &ActionContext<S>) -> (r: MiddlewareResult)
        ensures
            r is Continue || r is Abort,
    {
        let (mut chain, handle) = self.middleware.acquire_write();
        let r = chain.before_action(ctx);
        handle.release_write(chain);
        r
    }

    fn run_after_action(&self, ctx: &ActionContext<S>, result: &ActionResult) {
        let (mut chain, handle) = self.middleware.acquire_write();
        chain.after_action(ctx, result);
        handle.release_write(chain);
    }

    /// Execute a mutation with middleware hooks.
    ///
    /// Emits `MutationStarted`, runs the `before_mutate` hooks, then either
    /// runs the mutation or, when a middleware aborts, skips it; runs the
    /// `after_mutate` hooks with the outcome and emits `MutationCompleted`.
    /// An abort is reported as `MutationFailed` with the abort's message.
    pub fn mutate<F: FnOnce()>(&self, mutation_name: &'static str, mutate_fn: F) -> (r: Result<(), StoreError>)
        requires
            mutate_fn.requires(()),
        ensures
            r is Ok ==> mutate_fn.ensures((), ()),
            r matches Err(e) ==> (e matches StoreError::MutationFailed(m) && exists|err: MiddlewareError|
                m@ == err.message_spec()),
            exists|ctx: MiddlewareContext<S>, before: MiddlewareResult|
                *ctx.store_spec() == self.inner_spec() && ctx.mutation_spec() == mutation_name
                    && #[trigger] call_ensures(Self::run_before_mutate, (self, &ctx), before)
                    && mutation_finished(before, mutate_fn, r),
    {
        let ctx = MiddlewareContext::new(&self.inner, mutation_name);
        let start = CrossInstant::now();
        self.event_bus.emit(
            StoreEvent::MutationStarted {
                store_id: self.inner.id(),
                name: mutation_name,
                timestamp: current_timestamp_ms(),
            },
        );
        let before = self.run_before_mutate(&ctx);
        let message = abort_message(&before);
        let outcome = finish_mutation(&before, mutate_fn);
        let result = match &message {
            Some(m) => MutationResult::failure(start.elapsed(), m.as_str()),
            None => MutationResult::success(start.elapsed()),
        };
        self.run_after_mutate(&ctx, &result);
        self.event_bus.emit(
            StoreEvent::MutationCompleted {
                store_id: self.inner.id(),
                name: mutation_name,
                duration_ms: duration_millis(&start.elapsed()),
                success: message.is_none(),
            },
        );
        outcome
    }

    /// Execute an action with middleware hooks.
    ///
    /// Like [`MiddlewareStore::mutate`], with the action events and hooks;
    /// returns the action's output when it runs.
    pub fn dispatch<F: FnOnce() -> R, R>(
        &self,
        action_name: &'static str,
        action_type: std::any::TypeId,
        action_fn: F,
    ) -> (r: Result<R, StoreError>)
        requires
            action_fn.requires(()),
        ensures
            r matches Ok(out) ==> action_fn.ensures((), out),
            r matches Err(e) ==> (e matches StoreError::MutationFailed(m) && exists|err: MiddlewareError|
                m@ == err.message_spec()),
            exists|ctx: ActionContext<S>, before: MiddlewareResult|
                *ctx.store_spec() == self.inner_spec() && ctx.action_spec() == action_name
                    && ctx.action_type_spec() == action_type
                    && #[trigger] call_ensures(Self::run_before_action, (self, &ctx), before)
                    && action_finished(before, action_fn, r),
    {
        let ctx = ActionContext::new(&self.inner, action_type, action_name);
        let start = CrossInstant::now();
        self.event_bus.emit(
            StoreEvent::ActionDispatched {
                store_id: self.inner.id(),
                action_type,
                action_name,
                timestamp: current_timestamp_ms(),
            },
        );
        let before = self.run_before_action(&ctx);
        let message = abort_message(&before);
        let outcome = finish_action(&before, action_fn);
        let result = match &message {
            Some(m) => ActionResult::failure(start.elapsed(), m.as_str()),
            None => ActionResult::success(start.elapsed()),
        };
        self.run_after_action(&ctx, &result);
        self.event_bus.emit(
            StoreEvent::ActionCompleted {
                store_id: self.inner.id(),
                action_name,
                duration_ms: duration_millis(&start.elapsed()),
                success: message.is_none(),
            },
        );
        outcome
    }
}

impl<S: Store> Store for MiddlewareStore<S> {
    type State = S::State;

    open spec fn has_id(&self, id: StoreId) -> bool {
        self.inner_spec().has_id(id)
    }

    open spec fn has_name(&self, name: &'static str) -> bool {
        self.inner_spec().has_name(name)
    }

    fn state(&self) -> S::State {
        self.inner.state()
    }

    fn id(&self) -> StoreId {
        self.inner.id()
    }

    fn name(&self) -> &'static str {
        self.inner.name()
    }
}


// ============================================================================
// Built-in middleware: logging
// ============================================================================

/// Log level for the logging middleware.
#[derive(Debug, Clone, Copy, PartialEq, Eq, Structural)]
pub enum LogLevel {
    /// Trace level, the most verbose.
    Trace,
    /// Debug level.
    Debug,
    /// Info level, the default.
    Info,
    /// Warn level.
    Warn,
    /// Error level, the least verbose.
    Error,
    /// No logging.
    Off,
}

impl Default for LogLevel {
    fn default() -> (l: LogLevel)
        ensures
            l == LogLevel::Info,
    {
        LogLevel::Info
    }
}

/// Verbosity rank of a level: `Trace` lowest, `Error` highest.
pub open spec fn level_rank(level: LogLevel) -> int {
    match level {
        LogLevel::Trace => 0,
        LogLevel::Debug => 1,
        LogLevel::Info => 2,
        LogLevel::Warn => 3,
        LogLevel::Error => 4,
        LogLevel::Off => 5,
    }
}

/// A message at `message` level is shown under a configured level when
/// neither is `Off` and the message is at least as severe.
pub open spec fn emits(message: LogLevel, configured: LogLevel) -> bool {
    message != LogLevel::Off && configured != LogLevel::Off && level_rank(message) >= level_rank(
        configured,
    )
}

/// Whether a message at level `message` is emitted when the configured
/// minimum level is `configured`.
pub fn should_emit(message: LogLevel, configured: LogLevel) -> (r: bool)
    ensures
        r == emits(message, configured),
{
    match (message, configured) {
        (LogLevel::Off, _) => false,
        (_, LogLevel::Off) => false,
        (LogLevel::Error, _) => true,
        (LogLevel::Warn, LogLevel::Error) => false,
        (LogLevel::Warn, _) => true,
        (LogLevel::Info, LogLevel::Error) | (LogLevel::Info, LogLevel::Warn) => false,
        (LogLevel::Info, _) => true,
        (LogLevel::Debug, LogLevel::Error) | (LogLevel::Debug, LogLevel::Warn) | (
            LogLevel::Debug,
            LogLevel::Info,
        ) => false,
        (LogLevel::Debug, _) => true,
        (LogLevel::Trace, LogLevel::Trace) => true,
        (LogLevel::Trace, _) => false,
    }
}

/// One line of log output with its level.
#[derive(Debug, Clone)]
pub struct LogLine {
    /// Level of the line.
    pub level: LogLevel,
    /// Text of the line.
    pub text: String,
}

impl View for LogLine {
    type V = (LogLevel, Seq<char>);

    open spec fn view(&self) -> (LogLevel, Seq<char>) {
        (self.level, self.text@)
    }
}

/// The views of a sequence of log lines.
pub open spec fn lines_view(lines: Seq<LogLine>) -> Seq<(LogLevel, Seq<char>)> {
    lines.map_values(|l: LogLine| l@)
}

/// Configuration for the logging middleware.
#[derive(Debug, Clone)]
pub struct LoggingConfig {
    /// Minimum log level to emit.
    pub level: LogLevel,
    /// Whether to log state before mutations.
    pub log_state_before: bool,
    /// Whether to log state after mutations.
    pub log_state_after: bool,
    /// Whether to log timing information.
    pub log_timing: bool,
    /// Prefix for log messages.
    pub prefix: &'static str,
}

impl Default for LoggingConfig {
    fn default() -> (c: LoggingConfig)
        ensures
            c.level == LogLevel::Info,
            !c.log_state_before,
            !c.log_state_after,
            c.log_timing,
            c.prefix@ == "[Store]"@,
    {
        LoggingConfig {
            level: LogLevel::Info,
            log_state_before: false,
            log_state_after: false,
            log_timing: true,
            prefix: "[Store]",
        }
    }
}

/// Logging middleware: turns store operations into log lines.
///
/// The lines are computed here; writing them to the console is left to the
/// caller.
#[derive(Debug, Clone)]
pub struct LoggingMiddleware {
    config: LoggingConfig,
}

impl LoggingMiddleware {
    /// The configuration in use.
    pub closed spec fn config_spec(&self) -> LoggingConfig {
        self.config
    }

    /// The lines shown for one message: none when `level` is filtered out,
    /// else the message behind the prefix and a space.
    pub open spec fn shown(&self, level: LogLevel, message: Seq<char>) -> Seq<(LogLevel, Seq<char>)> {
        if emits(level, self.config_spec().level) {
            seq![(level, self.config_spec().prefix@ + " "@ + message)]
        } else {
            seq![]
        }
    }

    /// Create a logging middleware with the default configuration.
    pub fn new() -> (m: LoggingMiddleware)
        ensures
            m.config_spec().level == LogLevel::Info,
            !m.config_spec().log_state_before,
            !m.config_spec().log_state_after,
            m.config_spec().log_timing,
            m.config_spec().prefix@ == "[Store]"@,
    {
        LoggingMiddleware { config: LoggingConfig::default() }
    }

    /// Create with a custom configuration.
    pub fn with_config(config: LoggingConfig) -> (m: LoggingMiddleware)
        ensures
            m.config_spec() == config,
    {
        LoggingMiddleware { config }
    }

    /// Set the log level.
    pub fn with_level(self, level: LogLevel) -> (m: LoggingMiddleware)
        ensures
            m.config_spec() == (LoggingConfig { level, ..self.config_spec() }),
    {
        let mut m = self;
        m.config.level = level;
        m
    }

    /// Enable state logging before mutations.
    pub fn log_state_before(self) -> (m: LoggingMiddleware)
        ensures
            m.config_spec() == (LoggingConfig { log_state_before: true, ..self.config_spec() }),
    {
        let mut m = self;
        m.config.log_state_before = true;
        m
    }

    /// Enable state logging after mutations.
    pub fn log_state_after(self) -> (m: LoggingMiddleware)
        ensures
            m.config_spec() == (LoggingConfig { log_state_after: true, ..self.config_spec() }),
    {
        let mut m = self;
        m.config.log_state_after = true;
        m
    }

    /// Set a custom prefix.
    pub fn with_prefix(self, prefix: &'static str) -> (m: LoggingMiddleware)
        ensures
            m.config_spec() == (LoggingConfig { prefix, ..self.config_spec() }),
    {
        let mut m = self;
        m.config.prefix = prefix;
        m
    }

    /// The configuration in use.
    pub fn config(&self) -> (c: &LoggingConfig)
        ensures
            *c == self.config_spec(),
    {
        &self.config
    }

    /// Whether logging is on at all.
    pub fn should_log(&self) -> (r: bool)
        ensures
            r == (self.config_spec().level != LogLevel::Off),
    {
        self.config.level != LogLevel::Off
    }

    /// Appends the line for `message` at `level`, if that level is shown.
    fn push_line(&self, lines: &mut Vec<LogLine>, level: LogLevel, message: String)
        ensures
            lines_view(final(lines)@) == lines_view(old(lines)@) + self.shown(level, message@),
    {
        if should_emit(level, self.config.level) {
            let mut text = String::from_str(self.config.prefix);
            text.append(" ");
            text.append(message.as_str());
            let ghost before = lines@;
            lines.push(LogLine { level, text });
            proof {
                assert(lines_view(lines@) =~= lines_view(before) + self.shown(level, message@));
            }
        } else {
            assert(lines_view(lines@) =~= lines_view(old(lines)@) + self.shown(level, message@));
        }
    }

    /// The lines logged when a mutation starts.
    pub fn mutation_started_lines(&self, mutation_name: &str, store_name: &str) -> (r: Vec<LogLine>)
        ensures
            lines_view(r@) == self.shown(LogLevel::Info, "Mutation started: "@ + mutation_name@) + (
            if self.config_spec().log_state_before {
                self.shown(LogLevel::Debug, "State before: (store: "@ + store_name@ + ")"@)
            } else {
                seq![]
            }),
    {
        let mut lines: Vec<LogLine> = Vec::new();
        proof {
            assert(lines_view(lines@) =~= seq![]);
        }
        self.push_line(&mut lines, LogLevel::Info, String::from_str("Mutation started: ").concat(mutation_name));
        if self.config.log_state_before {
            let mut m = String::from_str("State before: (store: ");
            m.append(store_name);
            m.append(")");
            self.push_line(&mut lines, LogLevel::Debug, m);
        }
        lines
    }

    /// The text and level of the line that reports a finished operation:
    /// `<kind> completed: <name>` at `Info` or `<kind> failed: <name>` at
    /// `Error`, followed by the duration when timing is logged.
    pub open spec fn finished_message(&self, kind: Seq<char>, name: Seq<char>, success: bool, duration: Duration) -> Seq<char> {
        let status = if success { "completed"@ } else { "failed"@ };
        if self.config_spec().log_timing {
            kind + " "@ + status + ": "@ + name + " ("@ + duration_debug(duration) + ")"@
        } else {
            kind + " "@ + status + ": "@ + name
        }
    }

    fn finished_line(&self, lines: &mut Vec<LogLine>, kind: &str, name: &str, success: bool, duration: &Duration)
        ensures
            lines_view(final(lines)@) == lines_view(old(lines)@) + self.shown(
                if success { LogLevel::Info } else { LogLevel::Error },
                self.finished_message(kind@, name@, success, *duration),
            ),
    {
        let status = if success { "completed" } else { "failed" };
        let mut m = String::from_str(kind);
        m.append(" ");
        m.append(status);
        m.append(": ");
        m.append(name);
        if self.config.log_timing {
            m.append(" (");
            let d = duration_text(duration);
            m.append(d.as_str());
            m.append(")");
        }
        let level = if success { LogLevel::Info } else { LogLevel::Error };
        self.push_line(lines, level, m);
    }

    fn error_line(&self, lines: &mut Vec<LogLine>, success: bool, error: &Option<String>)
        ensures
            lines_view(final(lines)@) == lines_view(old(lines)@) + (match error {
                Some(e) if !success => self.shown(LogLevel::Error, "Error: "@ + e@),
                _ => seq![],
            }),
    {
        match error {
            Some(e) => {
                if !success {
                    self.push_line(lines, LogLevel::Error, String::from_str("Error: ").concat(e.as_str()));
                } else {
                    assert(lines_view(lines@) =~= lines_view(old(lines)@) + seq![]);
                }
            },
            None => {
                assert(lines_view(lines@) =~= lines_view(old(lines)@) + seq![]);
            },
        }
    }

    /// The lines logged when a mutation finishes.
    pub fn mutation_finished_lines(&self, mutation_name: &str, store_name: &str, result: &MutationResult) -> (r: Vec<LogLine>)
        ensures
            lines_view(r@) == self.shown(
                if result.success { LogLevel::Info } else { LogLevel::Error },
                self.finished_message("Mutation"@, mutation_name@, result.success, result.duration),
            ) + (match result.error {
                Some(e) if !result.success => self.shown(LogLevel::Error, "Error: "@ + e@),
                _ => seq![],
            }) + (if self.config_spec().log_state_after {
                self.shown(LogLevel::Debug, "State after: (store: "@ + store_name@ + ")"@)
            } else {
                seq![]
            }),
    {
        let mut lines: Vec<LogLine> = Vec::new();
        proof {
            assert(lines_view(lines@) =~= seq![]);
        }
        self.finished_line(&mut lines, "Mutation", mutation_name, result.success, &result.duration);
        self.error_line(&mut lines, result.success, &result.error);
        if self.config.log_state_after {
            let mut m = String::from_str("State after: (store: ");
            m.append(store_name);
            m.append(")");
            self.push_line(&mut lines, LogLevel::Debug, m);
        } else {
            assert(lines_view(lines@) =~= lines_view(lines@) + seq![]);
        }
        lines
    }

    /// The lines logged when an action is dispatched.
    pub fn action_dispatched_lines(&self, action_name: &str) -> (r: Vec<LogLine>)
        ensures
            lines_view(r@) == self.shown(LogLevel::Info, "Action dispatched: "@ + action_name@),
    {
        let mut lines: Vec<LogLine> = Vec::new();
        proof {
            assert(lines_view(lines@) =~= seq![]);
        }
        self.push_line(&mut lines, LogLevel::Info, String::from_str("Action dispatched: ").concat(action_name));
        lines
    }

    /// The lines logged when an action finishes.
    pub fn action_finished_lines(&self, action_name: &str, result: &ActionResult) -> (r: Vec<LogLine>)
        ensures
            lines_view(r@) == self.shown(
                if result.success { LogLevel::Info } else { LogLevel::Error },
                self.finished_message("Action"@, action_name@, result.success, result.duration),
            ) + (match result.error {
                Some(e) if !result.success => self.shown(LogLevel::Error, "Error: "@ + e@),
                _ => seq![],
            }),
    {
        let mut lines: Vec<LogLine> = Vec::new();
        proof {
            assert(lines_view(lines@) =~= seq![]);
        }
        self.finished_line(&mut lines, "Action", action_name, result.success, &result.duration);
        self.error_line(&mut lines, result.success, &result.error);
        lines
    }

    /// The name the logging middleware reports.
    pub fn name(&self) -> (r: &'static str)
        ensures
            r@ == "LoggingMiddleware"@,
    {
        "LoggingMiddleware"
    }

    /// Logging runs last in `before_*` hooks and first in `after_*` hooks.
    pub fn priority(&self) -> (r: i32)
        ensures
            r == -100,
    {
        -100
    }
}

// ============================================================================
// Built-in middleware: timing
// ============================================================================

/// Timing middleware: flags slow operations.
///
/// An operation at or above the error threshold is reported at `Error`
/// level, one at or above the warning threshold at `Warn` level.
#[derive(Debug, Clone, Copy)]
pub struct TimingMiddleware {
    warn_threshold_ms: u64,
    error_threshold_ms: u64,
}

impl TimingMiddleware {
    /// The warning threshold, in milliseconds.
    pub closed spec fn warn_spec(&self) -> u64 {
        self.warn_threshold_ms
    }

    /// The error threshold, in milliseconds.
    pub closed spec fn error_spec(&self) -> u64 {
        self.error_threshold_ms
    }

    /// Create a timing middleware with the default thresholds (warn at
    /// 100 ms, error at 1000 ms).
    pub fn new() -> (m: TimingMiddleware)
        ensures
            m.warn_spec() == 100,
            m.error_spec() == 1000,
    {
        TimingMiddleware { warn_threshold_ms: 100, error_threshold_ms: 1000 }
    }

    /// Set the warning threshold.
    pub fn with_warn_threshold(self, ms: u64) -> (m: TimingMiddleware)
        ensures
            m.warn_spec() == ms,
            m.error_spec() == self.error_spec(),
    {
        TimingMiddleware { warn_threshold_ms: ms, ..self }
    }

    /// Set the error threshold.
    pub fn with_error_threshold(self, ms: u64) -> (m: TimingMiddleware)
        ensures
            m.warn_spec() == self.warn_spec(),
            m.error_spec() == ms,
    {
        TimingMiddleware { error_threshold_ms: ms, ..self }
    }

    /// The warning threshold, in milliseconds.
    pub fn warn_threshold_ms(&self) -> (r: u64)
        ensures
            r == self.warn_spec(),
    {
        self.warn_threshold_ms
    }

    /// The error threshold, in milliseconds.
    pub fn error_threshold_ms(&self) -> (r: u64)
        ensures
            r == self.error_spec(),
    {
        self.error_threshold_ms
    }

    /// The alert level for an operation that took `duration_ms`.
    pub open spec fn alert_spec(&self, duration_ms: u64) -> Option<LogLevel> {
        if duration_ms >= self.error_spec() {
            Some(LogLevel::Error)
        } else if duration_ms >= self.warn_spec() {
            Some(LogLevel::Warn)
        } else {
            None
        }
    }

    /// Classify an operation that took `duration_ms`.
    pub fn classify(&self, duration_ms: u64) -> (r: Option<LogLevel>)
        ensures
            r == self.alert_spec(duration_ms),
    {
        if duration_ms >= self.error_threshold_ms {
            Some(LogLevel::Error)
        } else if duration_ms >= self.warn_threshold_ms {
            Some(LogLevel::Warn)
        } else {
            None
        }
    }

    /// The alert text for an operation of `kind` (`mutation` or `action`).
    pub open spec fn alert_text(&self, kind: Seq<char>, capitalized: Seq<char>, name: Seq<char>, duration_ms: u64) -> Option<(LogLevel, Seq<char>)> {
        match self.alert_spec(duration_ms) {
            Some(LogLevel::Error) => Some(
                (
                    LogLevel::Error,
                    "[Timing] Slow "@ + kind + ": "@ + name + " took "@ + decimal(duration_ms as nat)
                        + "ms (threshold: "@ + decimal(self.error_spec() as nat) + "ms)"@,
                ),
            ),
            Some(_) => Some(
                (
                    LogLevel::Warn,
                    "[Timing] "@ + capitalized + " "@ + name + " took "@ + decimal(duration_ms as nat)
                        + "ms"@,
                ),
            ),
            None => None,
        }
    }

    fn alert(&self, kind: &str, capitalized: &str, name: &str, duration_ms: u64) -> (r: Option<LogLine>)
        ensures
            r matches Some(l) ==> self.alert_text(kind@, capitalized@, name@, duration_ms) == Some(l@),
            r is None ==> self.alert_text(kind@, capitalized@, name@, duration_ms) is None,
    {
        match self.classify(duration_ms) {
            Some(LogLevel::Error) => {
                let mut t = String::from_str("[Timing] Slow ");
                t.append(kind);
                t.append(": ");
                t.append(name);
                t.append(" took ");
                push_decimal(&mut t, duration_ms);
                t.append("ms (threshold: ");
                push_decimal(&mut t, self.error_threshold_ms);
                t.append("ms)");
                Some(LogLine { level: LogLevel::Error, text: t })
            },
            Some(_) => {
                let mut t = String::from_str("[Timing] ");
                t.append(capitalized);
                t.append(" ");
                t.append(name);
                t.append(" took ");
                push_decimal(&mut t, duration_ms);
                t.append("ms");
                Some(LogLine { level: LogLevel::Warn, text: t })
            },
            None => None,
        }
    }

    /// The alert for a mutation, if it was slow.
    pub fn mutation_alert(&self, mutation_name: &str, result: &MutationResult) -> (r: Option<LogLine>)
        ensures
            r matches Some(l) ==> self.alert_text("mutation"@, "Mutation"@, mutation_name@, millis_of(result.duration)) == Some(l@),
            r is None ==> self.alert_text("mutation"@, "Mutation"@, mutation_name@, millis_of(result.duration)) is None,
    {
        self.alert("mutation", "Mutation", mutation_name, duration_millis(&result.duration))
    }

    /// The alert for an action, if it was slow.
    pub fn action_alert(&self, action_name: &str, result: &ActionResult) -> (r: Option<LogLine>)
        ensures
            r matches Some(l) ==> self.alert_text("action"@, "Action"@, action_name@, millis_of(result.duration)) == Some(l@),
            r is None ==> self.alert_text("action"@, "Action"@, action_name@, millis_of(result.duration)) is None,
    {
        self.alert("action", "Action", action_name, duration_millis(&result.duration))
    }

    /// The name the timing middleware reports.
    pub fn name(&self) -> (r: &'static str)
        ensures
            r@ == "TimingMiddleware"@,
    {
        "TimingMiddleware"
    }

    /// Timing runs after most middleware but before logging.
    pub fn priority(&self) -> (r: i32)
        ensures
            r == -50,
    {
        -50
    }
}

// ============================================================================
// Built-in middleware: validation
// ============================================================================

/// A check on a store's state before a mutation runs.
///
/// Implemented by the users of the library, or made from a closure with
/// [`ValidationMiddleware::add_validator`].
pub trait Validator<State>: Send + Sync {
    /// Whether `verdict` is a verdict this validator may give on `state`.
    spec fn judges(&self, state: State, verdict: Result<(), String>) -> bool;

    /// `Ok` when the state is valid, else the reason it is not.
    fn validate(&self, state: &State) -> (r: Result<(), String>)
        ensures
            self.judges(*state, r),
    ;
}

/// A validator made from a closure.
pub struct FnValidator<State, F: Fn(&State) -> Result<(), String>> {
    f: F,
    state: std::marker::PhantomData<State>,
}

impl<State, F: Fn(&State) -> Result<(), String>> FnValidator<State, F> {
    /// The wrapped closure.
    pub closed spec fn func(&self) -> F {
        self.f
    }

    #[verifier::type_invariant]
    spec fn callable(self) -> bool {
        forall|s: &State| #[trigger] self.f.requires((s,))
    }

    /// Wrap a closure that accepts every state.
    pub fn new(f: F) -> (v: Self)
        requires
            forall|s: &State| #[trigger] f.requires((s,)),
        ensures
            v.func() == f,
    {
        FnValidator { f, state: std::marker::PhantomData }
    }
}

impl<State: Send + Sync, F: Fn(&State) -> Result<(), String> + Send + Sync> Validator<State> for FnValidator<State, F> {
    open spec fn judges(&self, state: State, verdict: Result<(), String>) -> bool {
        self.func().ensures((&state,), verdict)
    }

    fn validate(&self, state: &State) -> (r: Result<(), String>) {
        proof {
            use_type_invariant(self);
        }
        (self.f)(state)
    }
}

/// One validator of a validation middleware.
#[verifier::reject_recursive_types(State)]
struct ValidatorSlot<State> {
    validator: Box<dyn Validator<State>>,
}

/// Validation middleware: runs validators on the state before mutations
/// and aborts the first mutation whose state one of them rejects.
#[verifier::reject_recursive_types(State)]
pub struct ValidationMiddleware<State> {
    validators: Vec<ValidatorSlot<State>>,
}

impl<State: Send + Sync + 'static> ValidationMiddleware<State> {
    /// The number of validators.
    pub closed spec fn count(&self) -> nat {
        self.validators@.len()
    }

    /// Whether validator `i` may give `verdict` on `state`.
    pub closed spec fn judge_at(&self, i: int, state: State, verdict: Result<(), String>) -> bool {
        self.validators@[i].validator.judges(state, verdict)
    }

    /// Whether `r` is what running the validators in order on `state` may
    /// give: `Continue` when every validator accepts it, else an abort with
    /// the reason of the first one that rejects it.
    pub open spec fn outcome(&self, state: State, r: MiddlewareResult) -> bool {
        match r {
            MiddlewareResult::Continue => forall|i: int|
                0 <= i < self.count() ==> #[trigger] self.judge_at(i, state, Ok(())),
            MiddlewareResult::Abort(MiddlewareError::ValidationFailed(m)) => exists|k: int|
                0 <= k < self.count() && #[trigger] self.judge_at(k, state, Err(m)) && forall|i: int|
                    0 <= i < k ==> #[trigger] self.judge_at(i, state, Ok(())),
            _ => false,
        }
    }

    /// Create a validation middleware with no validators.
    pub fn new() -> (m: Self)
        ensures
            m.count() == 0,
    {
        ValidationMiddleware { validators: Vec::new() }
    }

    /// Add a validator function.
    pub fn add_validator<F: Fn(&State) -> Result<(), String> + Send + Sync + 'static>(self, validator: F) -> (m: Self)
        requires
            forall|s: &State| #[trigger] validator.requires((s,)),
        ensures
            m.count() == self.count() + 1,
            forall|i: int, s: State, v: Result<(), String>|
                0 <= i < self.count() ==> #[trigger] m.judge_at(i, s, v) == self.judge_at(i, s, v),
            forall|s: State, v: Result<(), String>|
                #[trigger] m.judge_at(self.count() as int, s, v) == validator.ensures((&s,), v),
    {
        let mut m = self;
        let fv = FnValidator::new(validator);
        let slot = ValidatorSlot { validator: Box::new(fv) };
        push_item(&mut m.validators, slot);
        proof {
            lemma_push_index(self.validators@, slot);
            assert forall|s: State, v: Result<(), String>|
                #[trigger] m.judge_at(self.count() as int, s, v) == validator.ensures((&s,), v) by {
                assert(m.validators@[self.count() as int] == slot);
                assert(slot.validator.judges(s, v) == fv.judges(s, v));
            }
            assert forall|i: int, s: State, v: Result<(), String>|
                0 <= i < self.count() implies #[trigger] m.judge_at(i, s, v) == self.judge_at(i, s, v) by {
                assert(m.validators@[i] == self.validators@[i]);
            }
        }
        m
    }

    /// Run the validators in order on `state`; the first rejection aborts.
    pub fn check(&self, state: &State) -> (r: MiddlewareResult)
        ensures
            self.outcome(*state, r),
    {
        let mut i: usize = 0;
        while i < self.validators.len()
            invariant
                i <= self.count(),
                forall|j: int| 0 <= j < i ==> #[trigger] self.judge_at(j, *state, Ok(())),
            decreases self.validators.len() - i,
        {
            let verdict = self.validators[i].validator.validate(state);
            assert(self.judge_at(i as int, *state, verdict));
            match verdict {
                Ok(u) => {
                    assert(verdict == Ok::<(), String>(()));
                },
                Err(err) => {
                    let r = MiddlewareResult::Abort(MiddlewareError::ValidationFailed(err));
                    assert(self.judge_at(i as int, *state, Err(err)));
                    assert(r matches MiddlewareResult::Abort(MiddlewareError::ValidationFailed(m)) && m == err);
                    assert(self.outcome(*state, r));
                    return r;
                },
            }
            i = i + 1;
        }
        MiddlewareResult::Continue
    }
}

impl<S: Store> Middleware<S> for ValidationMiddleware<S::State> {
    fn before_mutate(&self, ctx: &MiddlewareContext<S>) -> (r: MiddlewareResult)
        ensures
            exists|state: S::State| self.outcome(state, r),
    {
        let state = ctx.state();
        self.check(&state)
    }

    fn name(&self) -> &'static str {
        "ValidationMiddleware"
    }

    fn priority(&self) -> i32 {
        100
    }
}

// ============================================================================
// Built-in middleware: tracing
// ============================================================================

/// Tracing middleware settings: the service name under which spans for
/// mutations and actions are recorded.
#[derive(Debug, Clone, Copy)]
pub struct TracingMiddleware {
    service_name: &'static str,
}

impl TracingMiddleware {
    /// The service name.
    pub closed spec fn service_spec(&self) -> &'static str {
        self.service_name
    }

    /// Create tracing settings for the `leptos-store` service.
    pub fn new() -> (m: TracingMiddleware)
        ensures
            m.service_spec()@ == "leptos-store"@,
    {
        TracingMiddleware { service_name: "leptos-store" }
    }

    /// Set the service name for spans.
    pub fn with_service_name(self, name: &'static str) -> (m: TracingMiddleware)
        ensures
            m.service_spec() == name,
    {
        TracingMiddleware { service_name: name }
    }

    /// The service name for spans.
    pub fn service_name(&self) -> (r: &'static str)
        ensures
            r == self.service_spec(),
    {
        self.service_name
    }

    /// The name the tracing middleware reports.
    pub fn name(&self) -> (r: &'static str)
        ensures
            r@ == "TracingMiddleware"@,
    {
        "TracingMiddleware"
    }

    /// Tracing runs very early to capture the full span.
    pub fn priority(&self) -> (r: i32)
        ensures
            r == 200,
    {
        200
    }
}

} // verus!
