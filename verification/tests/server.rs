use leptos_store::server::{
    ActionHistory, ActionHistoryEntry, ActionState, ActionStatus, OptimisticConfig, ServerActionBuilder,
    ServerActionError,
};
use leptos_store::store::{Store, StoreId};

#[derive(Clone, Default)]
struct UserStore;

impl Store for UserStore {
    type State = ();
    fn state(&self) {}
    fn id(&self) -> StoreId {
        StoreId::new(7)
    }
    fn name(&self) -> &'static str {
        "UserStore"
    }
}

#[test]
fn test_server_action_error_display() {
    assert!(ServerActionError::ServerFn("test".to_string()).message().contains("Server function"));
    assert!(ServerActionError::Timeout(5000).message().contains("5000"));
    assert!(ServerActionError::Cancelled.message().contains("cancelled"));
}

#[test]
fn test_action_history() {
    let mut history = ActionHistory::new(10);
    assert!(history.is_empty());

    history.record(ActionHistoryEntry {
        action: "test".to_string(),
        timestamp: 12345,
        duration_ms: Some(100),
        success: true,
        error: None,
    });

    assert_eq!(history.len(), 1);

    let entries = history.entries();
    assert_eq!(entries[0].action, "test");
    assert!(entries[0].success);

    history.clear();
    assert!(history.is_empty());
}

#[test]
fn test_action_history_max_entries() {
    let mut history = ActionHistory::new(3);

    for i in 0..5 {
        history.record(ActionHistoryEntry {
            action: format!("action_{}", i),
            timestamp: i as u64,
            duration_ms: None,
            success: true,
            error: None,
        });
    }

    assert_eq!(history.len(), 3);

    let entries = history.entries();
    assert_eq!(entries[0].action, "action_2");
    assert_eq!(entries[2].action, "action_4");
}

#[test]
fn test_optimistic_config_default() {
    let config: OptimisticConfig<i32> = OptimisticConfig::default();
    assert!(config.rollback_on_error);
    assert_eq!(config.delay_ms, 0);
}

#[test]
fn action_history_recent_is_newest_first() {
    let mut history = ActionHistory::new(5);
    for i in 0..4 {
        history.record(ActionHistoryEntry {
            action: format!("a{}", i),
            timestamp: i,
            duration_ms: None,
            success: true,
            error: None,
        });
    }
    let recent = history.recent(2);
    assert_eq!(recent.len(), 2);
    assert_eq!(recent[0].action, "a3");
    assert_eq!(recent[1].action, "a2");
    assert_eq!(history.recent(10).len(), 4);
}

#[test]
fn server_action_error_messages() {
    assert_eq!(ServerActionError::Network("down".to_string()).message(), "Network error: down");
    assert_eq!(ServerActionError::Timeout(30).message(), "Request timed out after 30ms");
    assert_eq!(ServerActionError::StoreUpdate("x".to_string()).message(), "Store update failed: x");
    assert_eq!(ServerActionError::Cancelled.message(), "Action was cancelled");
}

#[test]
fn action_status_lifecycle() {
    let mut status: ActionStatus<u32, String> = ActionStatus::new();
    assert_eq!(status.state(), ActionState::Idle);
    status.begin(1);
    assert_eq!(status.state(), ActionState::Pending);
    assert_eq!(status.version, 1);
    status.complete(Ok("done".to_string()));
    assert_eq!(status.state(), ActionState::Success);
    status.begin(2);
    status.complete(Err(ServerActionError::Cancelled));
    assert_eq!(status.state(), ActionState::Error);
    assert_eq!(status.value, Some("done".to_string()));
    assert_eq!(status.version, 2);
    status.clear();
    assert_eq!(status.state(), ActionState::Idle);
    assert_eq!(status.version, 2);
}

#[test]
fn server_action_builder_settings() {
    let b: ServerActionBuilder<UserStore> = ServerActionBuilder::new();
    assert_eq!(b.timeout_ms(), None);
    assert_eq!(b.retry_count(), 0);
    let b = b.with_timeout(500).with_retry(3).with_retry_delay(10);
    assert_eq!(b.timeout_ms(), Some(500));
    assert_eq!(b.retry_count(), 3);
}
