use leptos_store::coordination::{CoordinationError, CoordinationSubscriber, StoreCoordinator};
use leptos_store::dependency_graph::StoreDependencyGraph;
use leptos_store::middleware::{EventSubscriber, StoreEvent};
use leptos_store::store::{Store, StoreId};
use std::sync::atomic::{AtomicU32, Ordering};
use std::sync::Arc;

#[derive(Clone, Debug, Default)]
struct SourceStore {
    state: i32,
}

impl Store for SourceStore {
    type State = i32;
    fn state(&self) -> i32 {
        self.state
    }
    fn id(&self) -> StoreId {
        StoreId::new(1)
    }
    fn name(&self) -> &'static str {
        "SourceStore"
    }
}

#[derive(Clone, Debug, Default)]
struct TargetStore {
    state: i32,
}

impl Store for TargetStore {
    type State = i32;
    fn state(&self) -> i32 {
        self.state
    }
    fn id(&self) -> StoreId {
        StoreId::new(2)
    }
    fn name(&self) -> &'static str {
        "TargetStore"
    }
}

#[derive(Clone, Debug, Default)]
struct StoreA {
    state: i32,
}

impl Store for StoreA {
    type State = i32;
    fn state(&self) -> i32 {
        self.state
    }
    fn id(&self) -> StoreId {
        StoreId::new(10)
    }
    fn name(&self) -> &'static str {
        "StoreA"
    }
}

#[derive(Clone, Debug, Default)]
struct StoreB {
    state: i32,
}

impl Store for StoreB {
    type State = i32;
    fn state(&self) -> i32 {
        self.state
    }
    fn id(&self) -> StoreId {
        StoreId::new(11)
    }
    fn name(&self) -> &'static str {
        "StoreB"
    }
}

#[derive(Clone, Debug, Default)]
struct StoreC {
    state: i32,
}

impl Store for StoreC {
    type State = i32;
    fn state(&self) -> i32 {
        self.state
    }
    fn id(&self) -> StoreId {
        StoreId::new(12)
    }
    fn name(&self) -> &'static str {
        "StoreC"
    }
}

#[test]
fn test_coordinator_rule_count() {
    let source = SourceStore::default();
    let target = TargetStore::default();

    let mut coord = StoreCoordinator::new();
    assert_eq!(coord.rule_count(), 0);

    coord.on_change(&source, &target, |_t, _e| {});
    assert_eq!(coord.rule_count(), 1);

    coord.on_mutation(&source, "increment", &target, |_t| {});
    assert_eq!(coord.rule_count(), 2);
}

#[test]
fn test_coordinator_event_filtering() {
    let source = SourceStore::default();
    let source_id = source.id();

    let subscriber = CoordinationSubscriber::new(source_id, Some("increment".to_string()), |_| {});

    assert!(subscriber.filter(&StoreEvent::MutationCompleted {
        store_id: source_id,
        name: "increment",
        duration_ms: 0,
        success: true,
    }));

    assert!(!subscriber.filter(&StoreEvent::MutationCompleted {
        store_id: source_id,
        name: "decrement",
        duration_ms: 0,
        success: true,
    }));

    assert!(!subscriber.filter(&StoreEvent::MutationCompleted {
        store_id: source_id,
        name: "increment",
        duration_ms: 0,
        success: false,
    }));

    let other_id = StoreId::with_instance(2, 999);
    assert!(!subscriber.filter(&StoreEvent::MutationCompleted {
        store_id: other_id,
        name: "increment",
        duration_ms: 0,
        success: true,
    }));

    assert!(!subscriber.filter(&StoreEvent::StateChanged {
        store_id: source_id,
        store_name: "SourceStore",
        timestamp: 0,
    }));
}

#[test]
fn test_coordinator_wildcard_filtering() {
    let source = SourceStore::default();
    let source_id = source.id();

    let subscriber = CoordinationSubscriber::new(source_id, None, |_| {});

    assert!(subscriber.filter(&StoreEvent::MutationCompleted {
        store_id: source_id,
        name: "increment",
        duration_ms: 0,
        success: true,
    }));

    assert!(subscriber.filter(&StoreEvent::MutationCompleted {
        store_id: source_id,
        name: "decrement",
        duration_ms: 0,
        success: true,
    }));

    assert!(!subscriber.filter(&StoreEvent::MutationCompleted {
        store_id: source_id,
        name: "increment",
        duration_ms: 0,
        success: false,
    }));

    assert!(subscriber.filter(&StoreEvent::StateChanged {
        store_id: source_id,
        store_name: "SourceStore",
        timestamp: 0,
    }));

    let other_id = StoreId::with_instance(2, 999);
    assert!(!subscriber.filter(&StoreEvent::StateChanged {
        store_id: other_id,
        store_name: "TargetStore",
        timestamp: 0,
    }));

    assert!(!subscriber.filter(&StoreEvent::MutationStarted {
        store_id: source_id,
        name: "increment",
        timestamp: 0,
    }));
}

#[test]
fn test_coordinator_activate_registers_subscribers() {
    let source = SourceStore::default();
    let target = TargetStore::default();

    let mut coord = StoreCoordinator::new();
    coord.on_change(&source, &target, |_t, _e| {});
    coord.on_mutation(&source, "increment", &target, |_t| {});

    assert_eq!(coord.event_bus().subscriber_count(), 0);

    coord.activate();

    assert_eq!(coord.event_bus().subscriber_count(), 2);
}

#[test]
fn test_cache_invalidated_not_matched_by_coordination_subscriber() {
    let source = SourceStore::default();
    let source_id = source.id();

    let wildcard_sub = CoordinationSubscriber::new(source_id, None, |_| {});
    assert!(!wildcard_sub.filter(&StoreEvent::CacheInvalidated {
        source_store_id: source_id,
        scope: None,
        timestamp: 0,
    }));

    let specific_sub = CoordinationSubscriber::new(source_id, Some("increment".to_string()), |_| {});
    assert!(!specific_sub.filter(&StoreEvent::CacheInvalidated {
        source_store_id: source_id,
        scope: Some("pricing"),
        timestamp: 0,
    }));
}

#[test]
fn test_invalidate_on_change_rule_count() {
    let source = SourceStore::default();
    let mut coord = StoreCoordinator::new();

    coord.invalidate_on_change(&source, Some("pricing"));
    assert_eq!(coord.rule_count(), 1);

    coord.invalidate_on_change(&source, None);
    assert_eq!(coord.rule_count(), 2);
}

struct CountInvalidations {
    count: Arc<AtomicU32>,
}

impl EventSubscriber for CountInvalidations {
    fn on_event(&self, _event: &StoreEvent) {
        self.count.fetch_add(1, Ordering::SeqCst);
    }
    fn filter(&self, event: &StoreEvent) -> bool {
        matches!(event, StoreEvent::CacheInvalidated { .. })
    }
}

#[test]
fn test_invalidate_on_change_emits_event() {
    let source = SourceStore::default();
    let source_id = source.id();

    let mut coord = StoreCoordinator::new();
    coord.invalidate_on_change(&source, Some("test-scope"));
    coord.activate();

    let count = Arc::new(AtomicU32::new(0));
    coord.event_bus().subscribe(CountInvalidations { count: count.clone() });

    coord.event_bus().emit(StoreEvent::MutationCompleted {
        store_id: source_id,
        name: "update",
        duration_ms: 1,
        success: true,
    });

    assert_eq!(count.load(Ordering::SeqCst), 1);
}

#[test]
fn test_dependency_graph_empty() {
    let graph = StoreDependencyGraph::new();
    assert!(graph.is_empty());
    assert_eq!(graph.len(), 0);
    assert!(graph.validate().is_ok());
    assert!(graph.topological_order().unwrap().is_empty());
}

#[test]
fn test_dependency_graph_linear() {
    let a = StoreA::default();
    let b = StoreB::default();
    let c = StoreC::default();

    let mut graph = StoreDependencyGraph::new();
    graph.depends_on(&b, &a);
    graph.depends_on(&c, &b);

    assert_eq!(graph.len(), 3);
    assert!(graph.validate().is_ok());

    let order = graph.topological_order().unwrap();
    assert_eq!(order.len(), 3);

    let pos_a = order.iter().position(|id| *id == a.id()).unwrap();
    let pos_b = order.iter().position(|id| *id == b.id()).unwrap();
    let pos_c = order.iter().position(|id| *id == c.id()).unwrap();
    assert!(pos_a < pos_b);
    assert!(pos_b < pos_c);
}

#[test]
fn test_dependency_graph_cycle_detection() {
    let a = StoreA::default();
    let b = StoreB::default();

    let mut graph = StoreDependencyGraph::new();
    graph.depends_on(&b, &a);
    graph.depends_on(&a, &b);

    let result = graph.validate();
    assert!(result.is_err());
    match result {
        Err(CoordinationError::CircularDependency(msg)) => {
            assert!(msg.contains("→"), "Error should contain cycle path: {msg}");
        }
        _ => panic!("Expected CircularDependency error"),
    }
}

#[test]
fn test_dependency_graph_dependents_of() {
    let a = StoreA::default();
    let b = StoreB::default();
    let c = StoreC::default();

    let mut graph = StoreDependencyGraph::new();
    graph.depends_on(&b, &a);
    graph.depends_on(&c, &a);

    let dependents = graph.dependents_of(a.id());
    assert_eq!(dependents.len(), 2);
    assert!(dependents.contains(&b.id()));
    assert!(dependents.contains(&c.id()));

    assert!(graph.dependents_of(b.id()).is_empty());
}

#[test]
fn test_dependency_graph_store_name() {
    let a = StoreA::default();
    let b = StoreB::default();

    let mut graph = StoreDependencyGraph::new();
    graph.depends_on(&b, &a);

    assert!(graph.store_name(a.id()).is_some());
    assert!(graph.store_name(b.id()).is_some());
}

#[test]
fn test_coordinator_with_dependency_graph() {
    let a = StoreA::default();
    let b = StoreB::default();

    let mut graph = StoreDependencyGraph::new();
    graph.depends_on(&b, &a);

    let coord = StoreCoordinator::new().with_dependency_graph(graph);
    assert!(coord.dependency_graph().is_some());
    assert_eq!(coord.dependency_graph().unwrap().len(), 2);
}

#[test]
fn coordination_rules_run_handlers_on_target() {
    let source = SourceStore::default();
    let target = TargetStore::default();
    let hits = Arc::new(AtomicU32::new(0));
    let h1 = hits.clone();
    let h2 = hits.clone();

    let mut coord = StoreCoordinator::new();
    coord.on_change(&source, &target, move |_t, _e| {
        h1.fetch_add(1, Ordering::SeqCst);
    });
    coord.on_mutation(&source, "add_item", &target, move |_t| {
        h2.fetch_add(10, Ordering::SeqCst);
    });
    coord.activate();

    coord.event_bus().emit(StoreEvent::MutationCompleted {
        store_id: source.id(),
        name: "add_item",
        duration_ms: 1,
        success: true,
    });
    assert_eq!(hits.load(Ordering::SeqCst), 11);

    coord.event_bus().emit(StoreEvent::MutationCompleted {
        store_id: source.id(),
        name: "remove_item",
        duration_ms: 1,
        success: true,
    });
    assert_eq!(hits.load(Ordering::SeqCst), 12);

    coord.event_bus().emit(StoreEvent::StateChanged {
        store_id: target.id(),
        store_name: "TargetStore",
        timestamp: 5,
    });
    assert_eq!(hits.load(Ordering::SeqCst), 12);
}

#[test]
fn coordination_error_messages() {
    assert_eq!(
        CoordinationError::CircularDependency("A → B → A".to_string()).message(),
        "Circular dependency detected: A → B → A"
    );
    assert_eq!(
        CoordinationError::StoreNotFound("X".to_string()).message(),
        "Store not found in graph: X"
    );
}

#[test]
fn dependency_graph_self_dependency_is_a_cycle() {
    let a = StoreA::default();
    let mut graph = StoreDependencyGraph::new();
    graph.depends_on(&a, &a);
    assert!(graph.validate().is_err());
    assert!(graph.topological_order().is_err());
}

#[test]
fn dependency_graph_diamond_orders_dependencies_first() {
    let a = StoreA::default();
    let b = StoreB::default();
    let c = StoreC::default();
    let d = SourceStore::default();

    let mut graph = StoreDependencyGraph::new();
    graph.depends_on(&b, &a);
    graph.depends_on(&c, &a);
    graph.depends_on(&d, &b);
    graph.depends_on(&d, &c);

    let order = graph.topological_order().unwrap();
    assert_eq!(order.len(), 4);
    let pos = |id: StoreId| order.iter().position(|x| *x == id).unwrap();
    assert!(pos(a.id()) < pos(b.id()));
    assert!(pos(a.id()) < pos(c.id()));
    assert!(pos(b.id()) < pos(d.id()));
    assert!(pos(c.id()) < pos(d.id()));
}

#[test]
fn cycle_message_names_the_cycle_and_closes_it() {
    let a = StoreA::default();
    let b = StoreB::default();
    let mut graph = StoreDependencyGraph::new();
    graph.depends_on(&b, &a);
    graph.depends_on(&a, &b);
    match graph.validate() {
        Err(CoordinationError::CircularDependency(msg)) => {
            assert!(
                msg == "StoreA \u{2192} StoreB \u{2192} StoreA" || msg == "StoreB \u{2192} StoreA \u{2192} StoreB",
                "{msg}"
            );
        }
        other => panic!("expected a cycle, got {other:?}"),
    }
}

#[test]
fn topological_order_lists_every_store_once() {
    let mut graph = StoreDependencyGraph::new();
    graph.depends_on(&StoreB::default(), &StoreA::default());
    graph.depends_on(&StoreC::default(), &StoreB::default());
    let order = graph.topological_order().unwrap();
    assert_eq!(order.len(), graph.len());
    assert_eq!(order, vec![StoreId::new(10), StoreId::new(11), StoreId::new(12)]);
}

#[test]
fn depends_on_calls_chain() {
    let mut graph = StoreDependencyGraph::new();
    graph.depends_on(&StoreB::default(), &StoreA::default()).depends_on(&StoreC::default(), &StoreB::default());
    assert_eq!(graph.len(), 3);
    assert!(graph.validate().is_ok());
}
