//! Cross-store coordination: rules that route the events of one store to
//! handlers on another, and the errors of dependency ordering.

use vstd::prelude::*;
use vstd::string::StringExecFns;
use std::sync::Arc;
use crate::store::{Store, StoreId};
use crate::middleware::{EventBus, EventSubscriber, StoreEvent, share};
pub use crate::dependency_graph::StoreDependencyGraph;
use crate::clock::current_timestamp_ms;
use crate::priority::push_item;
use crate::text::same_text;

verus! {

/// Errors that can occur during store coordination.
#[derive(Clone, Debug, PartialEq, Eq)]
pub enum CoordinationError {
    /// A circular dependency was detected in the store dependency graph.
    CircularDependency(String),
    /// A referenced store was not found in the dependency graph.
    StoreNotFound(String),
}

impl CoordinationError {
    /// The text of the error message.
    pub open spec fn message_spec(&self) -> Seq<char> {
        match self {
            CoordinationError::CircularDependency(s) => "Circular dependency detected: "@ + s@,
            CoordinationError::StoreNotFound(s) => "Store not found in graph: "@ + s@,
        }
    }

    /// The human-readable error message.
    pub fn message(&self) -> (r: String)
        ensures
            r@ == self.message_spec(),
    {
        match self {
            CoordinationError::CircularDependency(s) => {
                String::from_str("Circular dependency detected: ").concat(s.as_str())
            },
            CoordinationError::StoreNotFound(s) => {
                String::from_str("Store not found in graph: ").concat(s.as_str())
            },
        }
    }
}


// ============================================================================
// Rules and their matching
// ============================================================================

/// Whether an event triggers a rule on `source` for `mutation`.
///
/// A successful `MutationCompleted` of the source store matches when the
/// rule names no mutation or names this one; a `StateChanged` of the
/// source store matches a rule that names no mutation. Nothing else
/// matches: in particular a `CacheInvalidated` event, which rules emit
/// themselves, never triggers a rule.
pub open spec fn rule_matches(source: StoreId, mutation: Option<Seq<char>>, event: StoreEvent) -> bool {
    match event {
        StoreEvent::MutationCompleted { store_id, name, success, .. } => store_id == source
            && success && match mutation {
            Some(m) => name@ == m,
            None => true,
        },
        StoreEvent::StateChanged { store_id, .. } => store_id == source && mutation is None,
        _ => false,
    }
}

/// The view of an optional mutation name.
pub open spec fn mutation_view(m: Option<String>) -> Option<Seq<char>> {
    match m {
        Some(s) => Some(s@),
        None => None,
    }
}

/// Whether `event` triggers a rule on `source` for `mutation`.
pub fn matches_rule(source: StoreId, mutation: &Option<String>, event: &StoreEvent) -> (r: bool)
    ensures
        r == rule_matches(source, mutation_view(*mutation), *event),
{
    match event {
        StoreEvent::MutationCompleted { store_id, name, success, .. } => {
            if *store_id != source || !*success {
                return false;
            }
            match mutation {
                Some(expected) => same_text(name, expected.as_str()),
                None => true,
            }
        },
        StoreEvent::StateChanged { store_id, .. } => *store_id == source && mutation.is_none(),
        _ => false,
    }
}

/// A rule never fires on a cache invalidation, whatever its source, scope
/// or time, so an invalidation rule cannot trigger itself.
pub proof fn lemma_invalidation_never_triggers(
    source: StoreId,
    mutation: Option<Seq<char>>,
    source_store_id: StoreId,
    scope: Option<&'static str>,
    timestamp: u64,
)
    ensures
        !rule_matches(
            source,
            mutation,
            StoreEvent::CacheInvalidated { source_store_id, scope, timestamp },
        ),
{
}

/// A failed mutation never fires a rule.
pub proof fn lemma_failed_mutation_never_triggers(
    source: StoreId,
    mutation: Option<Seq<char>>,
    store_id: StoreId,
    name: &'static str,
    duration_ms: u64,
)
    ensures
        !rule_matches(
            source,
            mutation,
            StoreEvent::MutationCompleted { store_id, name, duration_ms, success: false },
        ),
{
}

/// The work a coordination rule does when it fires.
pub trait RuleHandler: Send + Sync {
    /// Handle the event that fired the rule.
    fn handle(&self, event: &StoreEvent);
}

/// A handler made from a closure over the event.
pub struct EventHandler<F: Fn(&StoreEvent)> {
    f: F,
}

impl<F: Fn(&StoreEvent)> EventHandler<F> {
    /// The wrapped closure.
    pub closed spec fn func(&self) -> F {
        self.f
    }

    #[verifier::type_invariant]
    spec fn callable(self) -> bool {
        forall|e: &StoreEvent| #[trigger] self.f.requires((e,))
    }

    /// Wrap a closure that accepts every event.
    pub fn new(f: F) -> (h: Self)
        requires
            forall|e: &StoreEvent| #[trigger] f.requires((e,)),
        ensures
            h.func() == f,
    {
        EventHandler { f }
    }
}

impl<F: Fn(&StoreEvent) + Send + Sync> RuleHandler for EventHandler<F> {
    fn handle(&self, event: &StoreEvent) {
        proof {
            use_type_invariant(self);
        }
        (self.f)(event)
    }
}

/// A handler that runs a closure on a target store with the event.
pub struct ChangeHandler<T, F: Fn(&T, &StoreEvent)> {
    target: T,
    f: F,
}

impl<T, F: Fn(&T, &StoreEvent)> ChangeHandler<T, F> {
    #[verifier::type_invariant]
    spec fn callable(self) -> bool {
        forall|t: &T, e: &StoreEvent| #[trigger] self.f.requires((t, e))
    }
}

impl<T: Send + Sync, F: Fn(&T, &StoreEvent) + Send + Sync> RuleHandler for ChangeHandler<T, F> {
    fn handle(&self, event: &StoreEvent) {
        proof {
            use_type_invariant(self);
        }
        (self.f)(&self.target, event)
    }
}

/// A handler that runs a closure on a target store.
pub struct TargetHandler<T, F: Fn(&T)> {
    target: T,
    f: F,
}

impl<T, F: Fn(&T)> TargetHandler<T, F> {
    #[verifier::type_invariant]
    spec fn callable(self) -> bool {
        forall|t: &T| #[trigger] self.f.requires((t,))
    }
}

impl<T: Send + Sync, F: Fn(&T) + Send + Sync> RuleHandler for TargetHandler<T, F> {
    fn handle(&self, event: &StoreEvent) {
        proof {
            use_type_invariant(self);
        }
        (self.f)(&self.target)
    }
}

/// A handler that announces a cache invalidation on an event bus.
pub struct InvalidationHandler {
    bus: Arc<EventBus>,
    source_store_id: StoreId,
    scope: Option<&'static str>,
}

impl InvalidationHandler {
    /// The bus the invalidation is announced on.
    pub closed spec fn bus_spec(&self) -> Arc<EventBus> {
        self.bus
    }

    /// The store whose changes invalidate.
    pub closed spec fn source_spec(&self) -> StoreId {
        self.source_store_id
    }

    /// The scope of the invalidated caches.
    pub closed spec fn scope_spec(&self) -> Option<&'static str> {
        self.scope
    }
}

/// When an invalidation rule fires, it announces on its bus a
/// `CacheInvalidated` event for its source store with its scope.
pub proof fn law_invalidation_announces_source_and_scope(h: &InvalidationHandler, event: &StoreEvent)
    requires
        call_ensures(<InvalidationHandler as RuleHandler>::handle, (h, event), ()),
    ensures
        exists|t: u64|
            #[trigger] call_ensures(
                EventBus::emit,
                (
                    &*h.bus_spec(),
                    StoreEvent::CacheInvalidated {
                        source_store_id: h.source_spec(),
                        scope: h.scope_spec(),
                        timestamp: t,
                    },
                ),
                (),
            ),
{
}

impl RuleHandler for InvalidationHandler {
    fn handle(&self, event: &StoreEvent)
        ensures
            exists|t: u64|
                #[trigger] call_ensures(
                    EventBus::emit,
                    (
                        &*self.bus_spec(),
                        StoreEvent::CacheInvalidated {
                            source_store_id: self.source_spec(),
                            scope: self.scope_spec(),
                            timestamp: t,
                        },
                    ),
                    (),
                ),
    {
        let now = current_timestamp_ms();
        self.bus.emit(
            StoreEvent::CacheInvalidated {
                source_store_id: self.source_store_id,
                scope: self.scope,
                timestamp: now,
            },
        );
        assert(call_ensures(
            EventBus::emit,
            (
                &*self.bus_spec(),
                StoreEvent::CacheInvalidated { source_store_id: self.source_spec(), scope: self.scope_spec(), timestamp: now },
            ),
            (),
        ));
    }
}


/// Puts a handler behind a shared trait object.
fn shared_handler<H: RuleHandler + 'static>(handler: H) -> Arc<Box<dyn RuleHandler>> {
    let boxed: Box<dyn RuleHandler> = Box::new(handler);
    Arc::new(boxed)
}

/// The event subscriber that a coordination rule becomes once activated.
pub struct CoordinationSubscriber {
    source_store_id: StoreId,
    source_mutation: Option<String>,
    handler: Arc<Box<dyn RuleHandler>>,
}

impl CoordinationSubscriber {
    /// The store whose events the subscriber listens to.
    pub closed spec fn source_spec(&self) -> StoreId {
        self.source_store_id
    }

    /// The mutation the subscriber listens to, if only one.
    pub closed spec fn mutation_spec(&self) -> Option<Seq<char>> {
        mutation_view(self.source_mutation)
    }

    /// A subscriber that runs `handler` on each matching event.
    pub fn new<F: Fn(&StoreEvent) + Send + Sync + 'static>(
        source_store_id: StoreId,
        source_mutation: Option<String>,
        handler: F,
    ) -> (s: CoordinationSubscriber)
        requires
            forall|e: &StoreEvent| #[trigger] handler.requires((e,)),
        ensures
            s.source_spec() == source_store_id,
            s.mutation_spec() == mutation_view(source_mutation),
    {
        CoordinationSubscriber {
            source_store_id,
            source_mutation,
            handler: shared_handler(EventHandler::new(handler)),
        }
    }

    /// Whether the subscriber accepts `event`.
    pub fn accepts(&self, event: &StoreEvent) -> (r: bool)
        ensures
            r == rule_matches(self.source_spec(), self.mutation_spec(), *event),
    {
        matches_rule(self.source_store_id, &self.source_mutation, event)
    }
}

impl EventSubscriber for CoordinationSubscriber {
    fn on_event(&self, event: &StoreEvent) {
        self.handler.handle(event)
    }

    fn name(&self) -> (r: &'static str)
        ensures
            r@ == "StoreCoordinator"@,
    {
        "StoreCoordinator"
    }

    fn filter(&self, event: &StoreEvent) -> (r: bool)
        ensures
            r == rule_matches(self.source_spec(), self.mutation_spec(), *event),
    {
        self.accepts(event)
    }
}

/// A coordination rule linking a source store's events to a handler.
struct CoordinationRule {
    source_store_id: StoreId,
    source_mutation: Option<String>,
    handler: Arc<Box<dyn RuleHandler>>,
    invalidates: Ghost<Option<Option<&'static str>>>,
    announces: Ghost<Option<(Arc<EventBus>, StoreId)>>,
}

/// The view of a rule: its source store and mutation.
pub open spec fn rule_view_of(source: StoreId, mutation: Option<String>) -> (StoreId, Option<Seq<char>>) {
    (source, mutation_view(mutation))
}

// ============================================================================
// StoreCoordinator
// ============================================================================

/// Declarative cross-store coordination.
///
/// Collects rules that link source store events to handlers; once
/// [`StoreCoordinator::activate`] is called, each rule is subscribed to the
/// event bus.
pub struct StoreCoordinator {
    rules: Vec<CoordinationRule>,
    event_bus: Arc<EventBus>,
    dependency_graph: Option<StoreDependencyGraph>,
}

impl StoreCoordinator {
    /// For each rule, in order: the scope its handler announces an
    /// invalidation with, if it is an invalidation rule.
    pub closed spec fn invalidation_scopes(&self) -> Seq<Option<Option<&'static str>>> {
        Seq::new(self.rules@.len(), |i: int| self.rules@[i].invalidates@)
    }

    /// For each rule, in order: the bus its handler announces an
    /// invalidation on and the store it names, if it is an invalidation
    /// rule.
    pub closed spec fn invalidation_targets(&self) -> Seq<Option<(Arc<EventBus>, StoreId)>> {
        Seq::new(self.rules@.len(), |i: int| self.rules@[i].announces@)
    }

    /// The rules, as (source store, mutation) pairs, in the order they were
    /// added.
    pub closed spec fn rules_spec(&self) -> Seq<(StoreId, Option<Seq<char>>)> {
        Seq::new(
            self.rules@.len(),
            |i: int| rule_view_of(self.rules@[i].source_store_id, self.rules@[i].source_mutation),
        )
    }

    /// The event bus the rules are registered on.
    pub closed spec fn bus_spec(&self) -> Arc<EventBus> {
        self.event_bus
    }

    /// The attached dependency graph, if any.
    pub closed spec fn graph_spec(&self) -> Option<StoreDependencyGraph> {
        self.dependency_graph
    }

    /// Create a coordinator with its own event bus and no rules.
    pub fn new() -> (c: StoreCoordinator)
        ensures
            c.rules_spec().len() == 0,
            c.invalidation_scopes().len() == 0,
            c.invalidation_targets().len() == 0,
            c.graph_spec() is None,
    {
        StoreCoordinator {
            rules: Vec::new(),
            event_bus: Arc::new(EventBus::new()),
            dependency_graph: None,
        }
    }

    /// Create a coordinator that shares an existing event bus.
    pub fn with_event_bus(event_bus: Arc<EventBus>) -> (c: StoreCoordinator)
        ensures
            c.rules_spec().len() == 0,
            c.invalidation_scopes().len() == 0,
            c.invalidation_targets().len() == 0,
            c.bus_spec() == event_bus,
            c.graph_spec() is None,
    {
        StoreCoordinator { rules: Vec::new(), event_bus, dependency_graph: None }
    }

    fn add_rule(
        &mut self,
        source_store_id: StoreId,
        source_mutation: Option<String>,
        handler: Arc<Box<dyn RuleHandler>>,
        invalidates: Ghost<Option<Option<&'static str>>>,
        announces: Ghost<Option<(Arc<EventBus>, StoreId)>>,
    )
        ensures
            final(self).rules_spec() == old(self).rules_spec().push(
                rule_view_of(source_store_id, source_mutation),
            ),
            final(self).invalidation_scopes() == old(self).invalidation_scopes().push(invalidates@),
            final(self).invalidation_targets() == old(self).invalidation_targets().push(announces@),
            final(self).bus_spec() == old(self).bus_spec(),
            final(self).graph_spec() == old(self).graph_spec(),
    {
        let ghost before = self.rules@;
        push_item(
            &mut self.rules,
            CoordinationRule { source_store_id, source_mutation, handler, invalidates, announces },
        );
        proof {
            assert(self.invalidation_scopes() =~= old(self).invalidation_scopes().push(invalidates@));
            assert(self.invalidation_targets() =~= old(self).invalidation_targets().push(announces@));
            assert(self.rules_spec() =~= old(self).rules_spec().push(
                rule_view_of(source_store_id, source_mutation),
            ));
        }
    }

    /// Register a handler that fires on any successful mutation or state
    /// change of the source store; it gets the target store and the event.
    pub fn on_change<Source: Store, Target: Store, F: Fn(&Target, &StoreEvent) + Send + Sync + 'static>(
        &mut self,
        source: &Source,
        target: &Target,
        handler: F,
    ) -> (r: &mut Self)
        requires
            forall|t: &Target, e: &StoreEvent| #[trigger] handler.requires((t, e)),
        ensures
            exists|id: StoreId| #[trigger] source.has_id(id)
                && r.rules_spec() == old(self).rules_spec().push((id, None)),
            r.invalidation_scopes() == old(self).invalidation_scopes().push(None),
            r.invalidation_targets() == old(self).invalidation_targets().push(None),
            r.bus_spec() == old(self).bus_spec(),
            r.graph_spec() == old(self).graph_spec(),
            *final(self) == *final(r),
    {
        let h = ChangeHandler { target: target.clone(), f: handler };
        let id = source.id();
        self.add_rule(id, None, shared_handler(h), Ghost(None), Ghost(None));
        self
    }

    /// Register a handler that fires only when the named mutation
    /// completes successfully on the source store; it gets the target store.
    pub fn on_mutation<Source: Store, Target: Store, F: Fn(&Target) + Send + Sync + 'static>(
        &mut self,
        source: &Source,
        mutation_name: &str,
        target: &Target,
        handler: F,
    ) -> (r: &mut Self)
        requires
            forall|t: &Target| #[trigger] handler.requires((t,)),
        ensures
            exists|id: StoreId| #[trigger] source.has_id(id)
                && r.rules_spec() == old(self).rules_spec().push((id, Some(mutation_name@))),
            r.invalidation_scopes() == old(self).invalidation_scopes().push(None),
            r.invalidation_targets() == old(self).invalidation_targets().push(None),
            r.bus_spec() == old(self).bus_spec(),
            r.graph_spec() == old(self).graph_spec(),
            *final(self) == *final(r),
    {
        let h = TargetHandler { target: target.clone(), f: handler };
        let id = source.id();
        self.add_rule(id, Some(mutation_name.to_owned()), shared_handler(h), Ghost(None), Ghost(None));
        self
    }

    /// Register an invalidation rule: when the source store mutates
    /// successfully or changes state, a `CacheInvalidated` event for it with
    /// `scope` is emitted on the event bus.
    pub fn invalidate_on_change<Source: Store>(&mut self, source: &Source, scope: Option<&'static str>) -> (r: &mut Self)
        ensures
            exists|id: StoreId| #[trigger] source.has_id(id)
                && r.rules_spec() == old(self).rules_spec().push((id, None))
                && r.invalidation_targets() == old(self).invalidation_targets().push(
                Some((old(self).bus_spec(), id)),
            ),
            r.invalidation_scopes() == old(self).invalidation_scopes().push(Some(scope)),
            r.bus_spec() == old(self).bus_spec(),
            r.graph_spec() == old(self).graph_spec(),
            *final(self) == *final(r),
    {
        let id = source.id();
        let h = InvalidationHandler { bus: share(&self.event_bus), source_store_id: id, scope };
        let ghost announced = Some(h.scope_spec());
        let ghost target = Some((h.bus_spec(), h.source_spec()));
        self.add_rule(id, None, shared_handler(h), Ghost(announced), Ghost(target));
        self
    }

    /// Subscribe every rule to the event bus, in the order they were added.
    ///
    /// The coordinator keeps its rules; rules added later need another
    /// activation.
    pub fn activate(&self) {
        let mut i: usize = 0;
        while i < self.rules.len()
            decreases self.rules.len() - i,
        {
            let rule = &self.rules[i];
            self.event_bus.subscribe(
                CoordinationSubscriber {
                    source_store_id: rule.source_store_id,
                    source_mutation: rule.source_mutation.clone(),
                    handler: share(&rule.handler),
                },
            );
            i = i + 1;
        }
    }

    /// Get the event bus.
    pub fn event_bus(&self) -> (r: &Arc<EventBus>)
        ensures
            *r == self.bus_spec(),
    {
        &self.event_bus
    }

    /// Return the number of registered coordination rules.
    pub fn rule_count(&self) -> (n: usize)
        ensures
            n == self.rules_spec().len(),
    {
        self.rules.len()
    }

    /// Attach a dependency graph (for validation and ordering only).
    pub fn with_dependency_graph(self, graph: StoreDependencyGraph) -> (c: StoreCoordinator)
        ensures
            c.graph_spec() == Some(graph),
            c.rules_spec() == self.rules_spec(),
            c.bus_spec() == self.bus_spec(),
    {
        StoreCoordinator { dependency_graph: Some(graph), ..self }
    }

    /// The attached dependency graph, if any.
    pub fn dependency_graph(&self) -> (r: Option<&StoreDependencyGraph>)
        ensures
            match self.graph_spec() {
                Some(g) => r == Some(&g),
                None => r is None,
            },
    {
        match &self.dependency_graph {
            Some(g) => Some(g),
            None => None,
        }
    }
}

} // verus!
