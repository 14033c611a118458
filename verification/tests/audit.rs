use leptos_store::audit::{AuditTrail, AuditUserContext, ChangeType, FieldChange, StateDiff};

#[derive(Clone, Debug, PartialEq)]
struct TestState {
    count: i32,
    name: String,
    active: bool,
}

impl TestState {
    fn new(count: i32, name: &str, active: bool) -> Self {
        Self { count, name: name.to_string(), active }
    }
}

impl StateDiff for TestState {
    fn diff(&self, other: &Self) -> Vec<FieldChange> {
        let mut changes = Vec::new();
        if self.count != other.count {
            changes.push(FieldChange {
                field_path: "count".into(),
                old_value: format!("{}", self.count),
                new_value: format!("{}", other.count),
                change_type: ChangeType::Modified,
            });
        }
        if self.name != other.name {
            changes.push(FieldChange {
                field_path: "name".into(),
                old_value: self.name.clone(),
                new_value: other.name.clone(),
                change_type: ChangeType::Modified,
            });
        }
        if self.active != other.active {
            changes.push(FieldChange {
                field_path: "active".into(),
                old_value: format!("{}", self.active),
                new_value: format!("{}", other.active),
                change_type: ChangeType::Modified,
            });
        }
        changes
    }
}

#[test]
fn test_audit_trail_record_and_query() {
    let mut trail: AuditTrail<TestState> = AuditTrail::new();
    let before = TestState::new(0, "Alice", true);
    let after = TestState::new(1, "Alice", true);

    trail.record("increment", &before, &after);

    assert_eq!(trail.len(), 1);
    assert!(!trail.is_empty());

    let entries = trail.entries();
    assert_eq!(entries.len(), 1);
    assert_eq!(entries[0].mutation_name, "increment");
    assert_eq!(entries[0].state_before.count, 0);
    assert_eq!(entries[0].state_after.count, 1);
    assert!(entries[0].changes.is_empty());
    assert!(entries[0].user_context.is_none());
    assert!(entries[0].correlation_id.is_none());
    assert!(entries[0].timestamp > 0);
    assert!(entries[0].id > 0);
}

#[test]
fn test_audit_trail_with_diffs() {
    let mut trail: AuditTrail<TestState> = AuditTrail::new();
    let before = TestState::new(0, "Alice", true);
    let after = TestState::new(1, "Bob", true);

    trail.record_with_diff("update", &before, &after);

    let entries = trail.entries();
    assert_eq!(entries.len(), 1);
    assert_eq!(entries[0].changes.len(), 2);

    let count_change = entries[0]
        .changes
        .iter()
        .find(|c| c.field_path == "count")
        .expect("should have count change");
    assert_eq!(count_change.old_value, "0");
    assert_eq!(count_change.new_value, "1");
    assert_eq!(count_change.change_type, ChangeType::Modified);

    let name_change = entries[0]
        .changes
        .iter()
        .find(|c| c.field_path == "name")
        .expect("should have name change");
    assert_eq!(name_change.old_value, "Alice");
    assert_eq!(name_change.new_value, "Bob");
}

#[test]
fn test_audit_trail_max_entries() {
    let mut trail: AuditTrail<TestState> = AuditTrail::new().with_max_entries(3);
    let state = TestState::new(0, "test", true);

    for i in 0..5 {
        let after = TestState::new(i, "test", true);
        trail.record(&format!("mutation_{}", i), &state, &after);
    }

    assert_eq!(trail.len(), 3);

    let entries = trail.entries();
    assert_eq!(entries[0].mutation_name, "mutation_2");
    assert_eq!(entries[1].mutation_name, "mutation_3");
    assert_eq!(entries[2].mutation_name, "mutation_4");
}

#[test]
fn test_audit_trail_query_by_mutation() {
    let mut trail: AuditTrail<TestState> = AuditTrail::new();
    let state = TestState::new(0, "test", true);

    trail.record("increment", &state, &TestState::new(1, "test", true));
    trail.record("decrement", &state, &TestState::new(-1, "test", true));
    trail.record("increment", &state, &TestState::new(2, "test", true));
    trail.record("reset", &state, &TestState::new(0, "test", true));

    let increments = trail.entries_for_mutation("increment");
    assert_eq!(increments.len(), 2);
    assert!(increments.iter().all(|e| e.mutation_name == "increment"));

    let decrements = trail.entries_for_mutation("decrement");
    assert_eq!(decrements.len(), 1);

    let nonexistent = trail.entries_for_mutation("nonexistent");
    assert!(nonexistent.is_empty());
}

#[test]
fn test_audit_trail_user_context() {
    let mut trail: AuditTrail<TestState> = AuditTrail::new().with_user_context(|| {
        AuditUserContext::new()
            .with_user_id("user-42")
            .with_session_id("sess-abc")
            .with_ip_address("192.168.1.1")
            .with_metadata("role", "admin")
    });

    let before = TestState::new(0, "test", true);
    let after = TestState::new(1, "test", true);
    trail.record("increment", &before, &after);

    let entries = trail.entries();
    assert_eq!(entries.len(), 1);

    let ctx = entries[0].user_context.as_ref().expect("should have user context");
    assert_eq!(ctx.user_id, Some("user-42".to_string()));
    assert_eq!(ctx.session_id, Some("sess-abc".to_string()));
    assert_eq!(ctx.ip_address, Some("192.168.1.1".to_string()));
    assert_eq!(ctx.metadata.get("role"), Some(&"admin".to_string()));
}

#[test]
fn test_state_at_returns_snapshot() {
    let mut trail: AuditTrail<TestState> = AuditTrail::new();

    let s0 = TestState::new(0, "start", true);
    let s1 = TestState::new(1, "middle", true);
    let s2 = TestState::new(2, "end", false);

    trail.record("step_1", &s0, &s1);
    trail.record("step_2", &s1, &s2);

    let entries = trail.entries();
    let id1 = entries[0].id;
    let id2 = entries[1].id;

    let snapshot1 = trail.state_at(id1).expect("should find entry 1");
    assert_eq!(snapshot1.count, 1);
    assert_eq!(snapshot1.name, "middle");

    let snapshot2 = trail.state_at(id2).expect("should find entry 2");
    assert_eq!(snapshot2.count, 2);
    assert_eq!(snapshot2.name, "end");
    assert!(!snapshot2.active);

    assert!(trail.state_at(9999).is_none());
}

#[test]
fn test_field_change_display() {
    let modified = FieldChange {
        field_path: "user.name".into(),
        old_value: "Alice".into(),
        new_value: "Bob".into(),
        change_type: ChangeType::Modified,
    };
    assert_eq!(modified.display(), "user.name: 'Alice' -> 'Bob'");

    let added = FieldChange {
        field_path: "user.email".into(),
        old_value: String::new(),
        new_value: "bob@example.com".into(),
        change_type: ChangeType::Added,
    };
    assert_eq!(added.display(), "user.email: added 'bob@example.com'");

    let removed = FieldChange {
        field_path: "user.nickname".into(),
        old_value: "Bobby".into(),
        new_value: String::new(),
        change_type: ChangeType::Removed,
    };
    assert_eq!(removed.display(), "user.nickname: removed 'Bobby'");

    assert_eq!(ChangeType::Modified.display(), "Modified");
    assert_eq!(ChangeType::Added.display(), "Added");
    assert_eq!(ChangeType::Removed.display(), "Removed");
}

#[test]
fn audit_ids_increase_and_survive_trimming() {
    let mut trail: AuditTrail<TestState> = AuditTrail::new().with_max_entries(2);
    let s = TestState::new(0, "s", true);
    for i in 0..4 {
        trail.record(&format!("m{}", i), &s, &TestState::new(i, "s", true));
    }
    let entries = trail.entries();
    assert_eq!(entries.len(), 2);
    assert_eq!(entries[0].id, 3);
    assert_eq!(entries[1].id, 4);
    assert!(trail.entry_by_id(1).is_none());
    assert_eq!(trail.entry_by_id(4).unwrap().mutation_name, "m3");
}

#[test]
fn audit_entries_since_and_clear() {
    let mut trail: AuditTrail<TestState> = AuditTrail::new();
    let s = TestState::new(0, "s", true);
    trail.record("a", &s, &s);
    trail.record("b", &s, &s);
    assert_eq!(trail.entries_since(0).len(), 2);
    assert!(trail.entries_since(u64::MAX).is_empty());
    trail.clear();
    assert!(trail.is_empty());
    trail.record("c", &s, &s);
    assert_eq!(trail.entries()[0].id, 3);
}

#[test]
fn audit_zero_capacity_keeps_nothing() {
    let mut trail: AuditTrail<TestState> = AuditTrail::new().with_max_entries(0);
    let s = TestState::new(0, "s", true);
    trail.record("a", &s, &s);
    assert!(trail.is_empty());
}

#[test]
fn record_at_stamps_the_given_time() {
    let mut trail: AuditTrail<TestState> = AuditTrail::new();
    trail.record_at("increment", &TestState::new(0, "a", true), &TestState::new(1, "a", true), 1_700_000_000_000);
    let entries = trail.entries();
    assert_eq!(entries.len(), 1);
    assert_eq!(entries[0].timestamp, 1_700_000_000_000);
    assert_eq!(entries[0].id, 1);
    assert!(entries[0].changes.is_empty());
}

#[test]
fn record_with_diff_at_keeps_the_diff_and_time() {
    let mut trail: AuditTrail<TestState> = AuditTrail::new();
    let before = TestState::new(0, "Alice", true);
    let after = TestState::new(1, "Bob", true);
    trail.record_with_diff_at("update", &before, &after, 42);
    let entries = trail.entries();
    assert_eq!(entries[0].timestamp, 42);
    assert_eq!(entries[0].changes, before.diff(&after));
    assert_eq!(entries[0].changes.len(), 2);
}

#[test]
fn default_trail_is_empty() {
    let trail: AuditTrail<TestState> = AuditTrail::default();
    assert!(trail.is_empty());
    assert_eq!(trail.len(), 0);
}
