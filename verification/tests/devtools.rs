use leptos_store::devtools::{
    devtools_event_for, event_style, format_age, DevtoolsConfig, DevtoolsEvent, DevtoolsEventSubscriber,
    DevtoolsRecorder, DevtoolsRegistry, StateSnapshot, StoreInfo, TimeTravelDebugger,
};
use leptos_store::middleware::{ErrorSource, EventBus, StoreEvent};
use leptos_store::store::StoreId;

#[test]
fn test_devtools_config_default() {
    let config = DevtoolsConfig::default();
    assert_eq!(config.max_events, 1000);
    assert!(config.expose_console_api);
}

#[test]
fn test_store_info() {
    let info = StoreInfo {
        name: "TestStore".to_string(),
        key: "test".to_string(),
        store_type: "TestStore",
        registered_at: 12345,
    };
    assert_eq!(info.key, "test");
}

#[test]
fn test_devtools_event() {
    let event = DevtoolsEvent {
        event_type: "MutationCompleted".to_string(),
        store_name: Some("auth".to_string()),
        payload: "{}".to_string(),
        timestamp: 12345,
    };
    assert_eq!(event.event_type, "MutationCompleted");
}

#[test]
fn test_time_travel_debugger() {
    let mut debugger = TimeTravelDebugger::new(10);
    assert!(debugger.is_empty());

    debugger.record("test", "increment", r#"{"count":1}"#.to_string());
    assert_eq!(debugger.len(), 1);

    debugger.record("test", "increment", r#"{"count":2}"#.to_string());
    assert_eq!(debugger.len(), 2);

    let prev = debugger.prev();
    assert!(prev.is_some());
    assert_eq!(prev.unwrap().state, r#"{"count":1}"#);

    let next = debugger.next();
    assert!(next.is_some());
    assert_eq!(next.unwrap().state, r#"{"count":2}"#);

    debugger.clear();
    assert!(debugger.is_empty());
}

#[test]
fn test_time_travel_max_snapshots() {
    let mut debugger = TimeTravelDebugger::new(3);

    for i in 0..5 {
        debugger.record("test", "action", format!(r#"{{"count":{}}}"#, i));
    }

    assert_eq!(debugger.len(), 3);

    let snapshots = debugger.snapshots();
    assert_eq!(snapshots[0].state, r#"{"count":2}"#);
    assert_eq!(snapshots[2].state, r#"{"count":4}"#);
}

#[test]
fn test_state_snapshot() {
    let snapshot = StateSnapshot {
        index: 0,
        store: "auth".to_string(),
        action: "login".to_string(),
        state: r#"{"user":"test"}"#.to_string(),
        timestamp: 12345,
    };
    assert_eq!(snapshot.store, "auth");
    assert_eq!(snapshot.action, "login");
}

#[test]
fn time_travel_reindexes_and_moves_cursor() {
    let mut d = TimeTravelDebugger::new(2);
    d.record("s", "a", "1".to_string());
    d.record("s", "b", "2".to_string());
    d.record("s", "c", "3".to_string());
    let snaps = d.snapshots();
    assert_eq!(snaps.len(), 2);
    assert_eq!(snaps[0].index, 0);
    assert_eq!(snaps[1].index, 1);
    assert_eq!(snaps[0].action, "b");
    assert_eq!(d.current().unwrap().state, "3");
    assert!(d.next().is_none());
    assert_eq!(d.jump_to(0).unwrap().action, "b");
    assert!(d.prev().is_none());
    assert!(d.jump_to(5).is_none());
    assert_eq!(d.current().unwrap().action, "b");
}

#[test]
fn time_travel_zero_capacity() {
    let mut d = TimeTravelDebugger::new(0);
    d.record("s", "a", "1".to_string());
    assert!(d.is_empty());
    assert!(d.current().is_none());
}

#[test]
fn format_age_buckets() {
    assert_eq!(format_age(1000, 1500), "just now");
    assert_eq!(format_age(0, 5_000), "5s ago");
    assert_eq!(format_age(0, 120_000), "2m ago");
    assert_eq!(format_age(0, 7_200_000), "2h ago");
    assert_eq!(format_age(10_000, 0), "just now");
}

#[test]
fn store_events_become_devtools_events() {
    let id = StoreId::new(1);
    let e = devtools_event_for(
        &StoreEvent::MutationCompleted { store_id: id, name: "inc", duration_ms: 7, success: true },
        99,
    );
    assert_eq!(e.event_type, "MutationCompleted");
    assert_eq!(e.store_name, Some("inc".to_string()));
    assert_eq!(e.payload, r#"{"mutation":"inc","duration_ms":7,"success":true}"#);
    assert_eq!(e.timestamp, 99);

    let e = devtools_event_for(&StoreEvent::MutationStarted { store_id: id, name: "inc", timestamp: 5 }, 99);
    assert_eq!(e.payload, r#"{"mutation":"inc"}"#);
    assert_eq!(e.timestamp, 5);

    let e = devtools_event_for(
        &StoreEvent::Error { store_id: id, message: "boom".to_string(), source: ErrorSource::Persistence },
        3,
    );
    assert_eq!(e.store_name, None);
    assert_eq!(e.payload, r#"{"message":"boom","source":"Persistence"}"#);

    let e = devtools_event_for(
        &StoreEvent::CacheInvalidated { source_store_id: id, scope: None, timestamp: 4 },
        3,
    );
    assert_eq!(e.payload, r#"{"scope":null}"#);
    let e = devtools_event_for(
        &StoreEvent::CacheInvalidated { source_store_id: id, scope: Some("pricing"), timestamp: 4 },
        3,
    );
    assert_eq!(e.payload, r#"{"scope":"pricing"}"#);
    assert_eq!(e.store_name, Some("pricing".to_string()));

    let e = devtools_event_for(
        &StoreEvent::ActionCompleted { store_id: id, action_name: "load", duration_ms: 0, success: false },
        8,
    );
    assert_eq!(e.payload, r#"{"action":"load","duration_ms":0,"success":false}"#);
}

#[test]
fn registry_records_and_trims() {
    let mut reg = DevtoolsRegistry::new(DevtoolsConfig { max_events: 2, ..DevtoolsConfig::default() });
    reg.register("Auth", "auth", "app::AuthStore", 10);
    assert_eq!(reg.store("auth").unwrap().name, "Auth");
    assert_eq!(reg.events()[0].payload, r#"{"key":"auth"}"#);
    for i in 0..3 {
        reg.record(DevtoolsEvent {
            event_type: "StateChanged".to_string(),
            store_name: None,
            payload: format!("{}", i),
            timestamp: i,
        });
    }
    let events = reg.events();
    assert_eq!(events.len(), 2);
    assert_eq!(events[0].payload, "1");
    assert_eq!(reg.recent_events(1)[0].payload, "2");
    reg.unregister("auth");
    assert!(reg.store("auth").is_none());
}

#[test]
fn disabled_registry_records_nothing() {
    let mut reg = DevtoolsRegistry::new(DevtoolsConfig { enabled: false, ..DevtoolsConfig::default() });
    reg.record(DevtoolsEvent {
        event_type: "X".to_string(),
        store_name: None,
        payload: "{}".to_string(),
        timestamp: 0,
    });
    assert!(reg.events().is_empty());
}

#[test]
fn subscriber_records_bus_events() {
    let recorder = DevtoolsRecorder::new(DevtoolsConfig::default());
    let bus = EventBus::new();
    bus.subscribe(DevtoolsEventSubscriber::new(recorder.clone()));
    bus.emit(StoreEvent::StateChanged { store_id: StoreId::new(3), store_name: "S", timestamp: 1 });
    let events = recorder.events();
    assert_eq!(events.len(), 1);
    assert_eq!(events[0].event_type, "StateChanged");
    assert_eq!(events[0].store_name, Some("S".to_string()));
}

#[test]
fn event_styles() {
    assert_eq!(event_style("Error"), ("#f87171", "✕"));
    assert_eq!(event_style("StoreRegistered"), ("#34d399", "📦"));
    assert_eq!(event_style("whatever"), ("#9ca3af", "•"));
}

#[test]
fn escape_text_escapes_json_specials() {
    assert_eq!(leptos_store::devtools::escape_text("a\"b\\c\nd"), "a\\\"b\\\\c\\nd");
    assert_eq!(leptos_store::devtools::escape_text("plain"), "plain");
}

#[test]
fn state_changed_events_carry_the_payload() {
    let e = leptos_store::devtools::state_changed_event("Counter", "counter", "1", "say \"2\"", 7);
    assert_eq!(e.event_type, "StateChanged");
    assert_eq!(e.store_name.as_deref(), Some("Counter"));
    assert_eq!(e.payload, r#"{"store":"counter","old":"1","new":"say \"2\""}"#);
    assert_eq!(e.timestamp, 7);
    let j = leptos_store::devtools::state_changed_json_event("Counter", "counter", "{\"n\":1}", "{\"n\":2}", 8);
    assert_eq!(j.payload, r#"{"store":"counter","old":{"n":1},"new":{"n":2}}"#);
}
