use leptos_store::middleware::{
    abort_message, finish_action, finish_mutation, should_emit, ActionContext, ActionResult, ContextMetadata, EventBus, EventSubscriber, LogLevel,
    LoggingMiddleware, Middleware, MiddlewareChain, MiddlewareContext, MiddlewareError, MiddlewareResult,
    MiddlewareStore, MutationResult, StoreEvent, TimingMiddleware, TracingMiddleware, ValidationMiddleware,
};
use leptos_store::store::{Store, StoreError, StoreId};
use std::sync::atomic::{AtomicU32, Ordering};
use std::sync::Arc;
use std::time::Duration;

#[derive(Clone, Debug, Default)]
struct TestState {
    count: i32,
}

#[derive(Clone, Default)]
struct TestStore {
    state: TestState,
}

impl TestStore {
    fn new() -> Self {
        Self { state: TestState::default() }
    }
}

impl Store for TestStore {
    type State = TestState;
    fn state(&self) -> TestState {
        self.state.clone()
    }
    fn id(&self) -> StoreId {
        StoreId::new(1)
    }
    fn name(&self) -> &'static str {
        "TestStore"
    }
}

struct CountingMiddleware {
    before_mutate_count: AtomicU32,
    after_mutate_count: AtomicU32,
}

impl CountingMiddleware {
    fn new() -> Self {
        Self { before_mutate_count: AtomicU32::new(0), after_mutate_count: AtomicU32::new(0) }
    }
    fn before_count(&self) -> u32 {
        self.before_mutate_count.load(Ordering::SeqCst)
    }
    fn after_count(&self) -> u32 {
        self.after_mutate_count.load(Ordering::SeqCst)
    }
}

impl<S: Store> Middleware<S> for CountingMiddleware {
    fn before_mutate(&self, _ctx: &MiddlewareContext<S>) -> MiddlewareResult {
        self.before_mutate_count.fetch_add(1, Ordering::SeqCst);
        MiddlewareResult::Continue
    }
    fn after_mutate(&self, _ctx: &MiddlewareContext<S>, _result: &MutationResult) {
        self.after_mutate_count.fetch_add(1, Ordering::SeqCst);
    }
}

struct AbortingMiddleware;

impl<S: Store> Middleware<S> for AbortingMiddleware {
    fn before_mutate(&self, _ctx: &MiddlewareContext<S>) -> MiddlewareResult {
        MiddlewareResult::Abort(MiddlewareError::Rejected("Test abort".to_string()))
    }
}

#[test]
fn test_middleware_result_methods() {
    assert!(MiddlewareResult::Continue.should_continue());
    assert!(MiddlewareResult::Transform.should_continue());
    assert!(!MiddlewareResult::Skip.should_continue());
    assert!(!MiddlewareResult::Abort(MiddlewareError::Rejected("".to_string())).should_continue());

    assert!(!MiddlewareResult::Continue.is_abort());
    assert!(MiddlewareResult::Abort(MiddlewareError::Rejected("".to_string())).is_abort());

    let abort = MiddlewareResult::Abort(MiddlewareError::Rejected("test".to_string()));
    assert!(abort.error().is_some());
    assert!(MiddlewareResult::Continue.error().is_none());
}

#[test]
fn test_mutation_result() {
    let success = MutationResult::success(Duration::from_millis(10));
    assert!(success.success);
    assert!(success.error.is_none());

    let failure = MutationResult::failure(Duration::from_millis(5), "test error");
    assert!(!failure.success);
    assert_eq!(failure.error, Some("test error".to_string()));
}

#[test]
fn test_action_result() {
    let success = ActionResult::success(Duration::from_millis(10));
    assert!(success.success);
    assert!(success.error.is_none());

    let success_with_output = ActionResult::success_with_output(Duration::from_millis(10), "String");
    assert!(success_with_output.success);
    assert_eq!(success_with_output.output_type, Some("String"));

    let failure = ActionResult::failure(Duration::from_millis(5), "action error");
    assert!(!failure.success);
    assert_eq!(failure.error, Some("action error".to_string()));
}

#[test]
fn test_context_metadata() {
    let meta = ContextMetadata::new().with_tag("test").with_correlation_id("abc-123").with_custom("key", "value");

    assert_eq!(meta.tags, vec!["test"]);
    assert_eq!(meta.correlation_id, Some("abc-123".to_string()));
    assert_eq!(meta.custom.get("key"), Some(&"value".to_string()));
}

#[test]
fn test_middleware_chain_add_and_len() {
    let mut chain: MiddlewareChain<TestStore> = MiddlewareChain::new();
    assert!(chain.is_empty());
    assert_eq!(chain.len(), 0);

    chain.add(CountingMiddleware::new());
    assert!(!chain.is_empty());
    assert_eq!(chain.len(), 1);
}

#[test]
fn test_middleware_chain_execution() {
    let store = TestStore::new();
    let counting = Arc::new(CountingMiddleware::new());

    let mut chain: MiddlewareChain<TestStore> = MiddlewareChain::new();
    chain.add_arc(counting.clone());

    let ctx = MiddlewareContext::new(&store, "test");

    let result = chain.before_mutate(&ctx);
    assert!(result.should_continue());
    assert_eq!(counting.before_count(), 1);

    chain.after_mutate(&ctx, &MutationResult::success(Duration::from_millis(1)));
    assert_eq!(counting.after_count(), 1);
}

#[test]
fn test_middleware_chain_abort() {
    let store = TestStore::new();

    let mut chain: MiddlewareChain<TestStore> = MiddlewareChain::new();
    chain.add(AbortingMiddleware);

    let ctx = MiddlewareContext::new(&store, "test");
    let result = chain.before_mutate(&ctx);

    assert!(result.is_abort());
}

struct TestSubscriber {
    count: AtomicU32,
}

impl EventSubscriber for TestSubscriber {
    fn on_event(&self, _event: &StoreEvent) {
        self.count.fetch_add(1, Ordering::SeqCst);
    }
}

#[test]
fn test_event_bus() {
    let bus = EventBus::new();
    assert_eq!(bus.subscriber_count(), 0);

    let subscriber = Arc::new(TestSubscriber { count: AtomicU32::new(0) });

    bus.subscribe_arc(subscriber.clone());
    assert_eq!(bus.subscriber_count(), 1);

    bus.emit(StoreEvent::StateChanged { store_id: StoreId::new(1), store_name: "TestStore", timestamp: 12345 });

    assert_eq!(subscriber.count.load(Ordering::SeqCst), 1);

    bus.clear();
    assert_eq!(bus.subscriber_count(), 0);
}

struct FilteredSubscriber {
    mutation_count: AtomicU32,
}

impl EventSubscriber for FilteredSubscriber {
    fn on_event(&self, _event: &StoreEvent) {
        self.mutation_count.fetch_add(1, Ordering::SeqCst);
    }
    fn filter(&self, event: &StoreEvent) -> bool {
        matches!(event, StoreEvent::MutationCompleted { .. })
    }
}

#[test]
fn test_event_subscriber_filter() {
    let bus = EventBus::new();
    let subscriber = Arc::new(FilteredSubscriber { mutation_count: AtomicU32::new(0) });

    bus.subscribe_arc(subscriber.clone());

    bus.emit(StoreEvent::StateChanged { store_id: StoreId::new(1), store_name: "TestStore", timestamp: 12345 });
    assert_eq!(subscriber.mutation_count.load(Ordering::SeqCst), 0);

    bus.emit(StoreEvent::MutationCompleted { store_id: StoreId::new(1), name: "test", duration_ms: 10, success: true });
    assert_eq!(subscriber.mutation_count.load(Ordering::SeqCst), 1);
}

#[test]
fn test_middleware_store() {
    let store = TestStore::new();
    let mw_store = MiddlewareStore::new(store);

    let _state = mw_store.state();
    let _id = mw_store.id();
    let _name = mw_store.name();
}

#[test]
fn test_middleware_error_display() {
    assert_eq!(MiddlewareError::Rejected("test".to_string()).message(), "Middleware rejected: test");
    assert_eq!(MiddlewareError::ValidationFailed("invalid".to_string()).message(), "Validation failed: invalid");
    assert_eq!(MiddlewareError::Timeout(1000).message(), "Middleware timed out after 1000ms");
    assert_eq!(MiddlewareError::Internal("oops".to_string()).message(), "Middleware error: oops");
}

struct Recorder {
    label: &'static str,
    prio: i32,
    log: Arc<std::sync::Mutex<Vec<String>>>,
}

impl<S: Store> Middleware<S> for Recorder {
    fn before_mutate(&self, _ctx: &MiddlewareContext<S>) -> MiddlewareResult {
        self.log.lock().unwrap().push(format!("before {}", self.label));
        MiddlewareResult::Continue
    }
    fn after_mutate(&self, _ctx: &MiddlewareContext<S>, _result: &MutationResult) {
        self.log.lock().unwrap().push(format!("after {}", self.label));
    }
    fn priority(&self) -> i32 {
        self.prio
    }
}

#[test]
fn chain_runs_by_priority_then_reverse() {
    let store = TestStore::new();
    let log = Arc::new(std::sync::Mutex::new(Vec::new()));
    let mut chain: MiddlewareChain<TestStore> = MiddlewareChain::new();
    chain.add(Recorder { label: "low", prio: -5, log: log.clone() });
    chain.add(Recorder { label: "first-zero", prio: 0, log: log.clone() });
    chain.add(Recorder { label: "high", prio: 10, log: log.clone() });
    chain.add(Recorder { label: "second-zero", prio: 0, log: log.clone() });
    let ctx = MiddlewareContext::new(&store, "m");
    chain.before_mutate(&ctx);
    chain.after_mutate(&ctx, &MutationResult::success(Duration::from_millis(0)));
    let got = log.lock().unwrap().clone();
    assert_eq!(
        got,
        vec![
            "before high",
            "before first-zero",
            "before second-zero",
            "before low",
            "after low",
            "after second-zero",
            "after first-zero",
            "after high",
        ]
    );
}

struct Skipper;

impl<S: Store> Middleware<S> for Skipper {
    fn before_mutate(&self, _ctx: &MiddlewareContext<S>) -> MiddlewareResult {
        MiddlewareResult::Skip
    }
    fn priority(&self) -> i32 {
        50
    }
}

#[test]
fn skip_stops_the_chain_but_continues() {
    let store = TestStore::new();
    let counting = Arc::new(CountingMiddleware::new());
    let mut chain: MiddlewareChain<TestStore> = MiddlewareChain::new();
    chain.add_arc(counting.clone());
    chain.add(Skipper);
    let ctx = MiddlewareContext::new(&store, "m");
    let r = chain.before_mutate(&ctx);
    assert!(matches!(r, MiddlewareResult::Continue));
    assert_eq!(counting.before_count(), 0);
}

#[test]
fn middleware_store_mutate_and_abort() {
    let mw = MiddlewareStore::new(TestStore::new());
    let ran = AtomicU32::new(0);
    assert!(mw.mutate("inc", || { ran.fetch_add(1, Ordering::SeqCst); }).is_ok());
    assert_eq!(ran.load(Ordering::SeqCst), 1);

    mw.add_middleware(AbortingMiddleware);
    let r = mw.mutate("inc", || { ran.fetch_add(1, Ordering::SeqCst); });
    assert_eq!(r, Err(StoreError::MutationFailed("Middleware rejected: Test abort".to_string())));
    assert_eq!(ran.load(Ordering::SeqCst), 1);

    let out = MiddlewareStore::new(TestStore::new()).dispatch("load", std::any::TypeId::of::<()>(), || 42);
    assert_eq!(out, Ok(42));
}

#[test]
fn middleware_store_emits_events() {
    let mw = MiddlewareStore::new(TestStore::new());
    let subscriber = Arc::new(FilteredSubscriber { mutation_count: AtomicU32::new(0) });
    mw.event_bus().subscribe_arc(subscriber.clone());
    mw.mutate("x", || {}).unwrap();
    assert_eq!(subscriber.mutation_count.load(Ordering::SeqCst), 1);
}

#[test]
fn validation_middleware_aborts_on_invalid_state() {
    let store = TestStore { state: TestState { count: -1 } };
    let v: ValidationMiddleware<TestState> = ValidationMiddleware::new()
        .add_validator(|s: &TestState| if s.count < 0 { Err("negative".to_string()) } else { Ok(()) });
    let ctx = MiddlewareContext::new(&store, "m");
    let r = Middleware::<TestStore>::before_mutate(&v, &ctx);
    match r {
        MiddlewareResult::Abort(MiddlewareError::ValidationFailed(msg)) => assert_eq!(msg, "negative"),
        _ => panic!("expected a validation failure"),
    }
    assert_eq!(Middleware::<TestStore>::priority(&v), 100);
}

#[test]
fn log_levels_filter_by_rank() {
    assert!(should_emit(LogLevel::Error, LogLevel::Info));
    assert!(should_emit(LogLevel::Info, LogLevel::Info));
    assert!(!should_emit(LogLevel::Debug, LogLevel::Info));
    assert!(should_emit(LogLevel::Trace, LogLevel::Trace));
    assert!(!should_emit(LogLevel::Warn, LogLevel::Error));
    assert!(!should_emit(LogLevel::Error, LogLevel::Off));
    assert!(!should_emit(LogLevel::Off, LogLevel::Trace));
}

#[test]
fn logging_lines() {
    let logging = LoggingMiddleware::new().log_state_before();
    let lines = logging.mutation_started_lines("inc", "Counter");
    assert_eq!(lines.len(), 1);
    assert_eq!(lines[0].text, "[Store] Mutation started: inc");

    let verbose = LoggingMiddleware::new().with_level(LogLevel::Debug).log_state_before().with_prefix("[X]");
    let lines = verbose.mutation_started_lines("inc", "Counter");
    assert_eq!(lines.len(), 2);
    assert_eq!(lines[1].text, "[X] State before: (store: Counter)");
    assert_eq!(lines[1].level, LogLevel::Debug);

    let failed = MutationResult::failure(Duration::from_millis(3), "bad");
    let lines = LoggingMiddleware::new().mutation_finished_lines("inc", "Counter", &failed);
    assert_eq!(lines.len(), 2);
    assert_eq!(lines[0].level, LogLevel::Error);
    assert_eq!(lines[0].text, "[Store] Mutation failed: inc (3ms)");
    assert_eq!(lines[1].text, "[Store] Error: bad");

    let off = LoggingMiddleware::new().with_level(LogLevel::Off);
    assert!(off.action_dispatched_lines("a").is_empty());
    assert_eq!(LoggingMiddleware::new().action_dispatched_lines("a")[0].text, "[Store] Action dispatched: a");
    assert_eq!(LoggingMiddleware::new().priority(), -100);
}

#[test]
fn timing_thresholds() {
    let t = TimingMiddleware::new();
    assert_eq!(t.classify(99), None);
    assert_eq!(t.classify(100), Some(LogLevel::Warn));
    assert_eq!(t.classify(1000), Some(LogLevel::Error));
    let slow = MutationResult::success(Duration::from_millis(1500));
    let line = t.mutation_alert("save", &slow).unwrap();
    assert_eq!(line.text, "[Timing] Slow mutation: save took 1500ms (threshold: 1000ms)");
    let warn = ActionResult::success(Duration::from_millis(150));
    let line = t.with_warn_threshold(120).action_alert("fetch", &warn).unwrap();
    assert_eq!(line.level, LogLevel::Warn);
    assert_eq!(line.text, "[Timing] Action fetch took 150ms");
    assert_eq!(t.with_error_threshold(5).error_threshold_ms(), 5);
}

#[test]
fn tracing_settings() {
    let t = TracingMiddleware::new();
    assert_eq!(t.service_name(), "leptos-store");
    assert_eq!(t.with_service_name("svc").service_name(), "svc");
    assert_eq!(t.priority(), 200);
}

#[test]
fn action_context_reports_its_action() {
    let store = TestStore::new();
    let ctx = ActionContext::new(&store, std::any::TypeId::of::<u8>(), "load");
    assert_eq!(ctx.action_name(), "load");
    assert_eq!(ctx.store_name(), "TestStore");
    assert_eq!(ctx.action_type(), std::any::TypeId::of::<u8>());
}

#[test]
fn abort_message_of_before_hook_results() {
    let abort = MiddlewareResult::Abort(MiddlewareError::Rejected("no".to_string()));
    assert_eq!(abort_message(&abort), Some("Middleware rejected: no".to_string()));
    assert_eq!(abort_message(&MiddlewareResult::Continue), None);
    assert_eq!(abort_message(&MiddlewareResult::Skip), None);
}

#[test]
fn finish_action_runs_only_when_not_aborted() {
    let abort = MiddlewareResult::Abort(MiddlewareError::ValidationFailed("bad".to_string()));
    let ran = std::cell::Cell::new(false);
    let r = finish_action(&abort, || {
        ran.set(true);
        5
    });
    assert_eq!(r, Err(StoreError::MutationFailed("Validation failed: bad".to_string())));
    assert!(!ran.get());
    assert_eq!(finish_action(&MiddlewareResult::Continue, || 5), Ok(5));
    assert_eq!(finish_action(&MiddlewareResult::Skip, || 6), Ok(6));
}

#[test]
fn finish_mutation_runs_only_when_not_aborted() {
    let count = std::cell::Cell::new(0);
    let abort = MiddlewareResult::Abort(MiddlewareError::Rejected("no".to_string()));
    assert_eq!(
        finish_mutation(&abort, || count.set(count.get() + 1)),
        Err(StoreError::MutationFailed("Middleware rejected: no".to_string()))
    );
    assert_eq!(count.get(), 0);
    assert_eq!(finish_mutation(&MiddlewareResult::Continue, || count.set(count.get() + 1)), Ok(()));
    assert_eq!(count.get(), 1);
}
