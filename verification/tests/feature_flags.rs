use leptos_store::templates::feature_flags::{
    feature_visible, variant_matches, FeatureFlag, FeatureFlagStore, FlagError, UserContext,
};

#[test]
fn test_feature_flag_creation() {
    let flag = FeatureFlag::new("test", true);
    assert_eq!(flag.key, "test");
    assert!(flag.enabled);
    assert!(flag.variant.is_none());
}

#[test]
fn test_feature_flag_with_variant() {
    let flag = FeatureFlag::with_variant("ab_test", true, "variant_a");
    assert_eq!(flag.key, "ab_test");
    assert_eq!(flag.variant, Some("variant_a".to_string()));
}

#[test]
fn test_feature_flag_with_metadata() {
    let flag = FeatureFlag::new("test", true).with_description("Test flag").with_metadata("owner", "team-a");

    assert_eq!(flag.description, Some("Test flag".to_string()));
    assert_eq!(flag.metadata.get("owner"), Some(&"team-a".to_string()));
}

#[test]
fn test_user_context() {
    let ctx = UserContext::authenticated("user123")
        .with_email("test@example.com")
        .with_environment("production")
        .with_attribute("plan", "premium");

    assert_eq!(ctx.user_id, Some("user123".to_string()));
    assert_eq!(ctx.email, Some("test@example.com".to_string()));
    assert_eq!(ctx.environment, Some("production".to_string()));
    assert_eq!(ctx.attributes.get("plan"), Some(&"premium".to_string()));
}

#[test]
fn test_feature_flag_store_creation() {
    let store = FeatureFlagStore::new();
    assert!(!store.is_loaded());
    assert!(!store.is_loading());
}

#[test]
fn test_feature_flag_store_set_flags() {
    let mut store = FeatureFlagStore::new();
    store.set_flags(vec![FeatureFlag::new("flag1", true), FeatureFlag::new("flag2", false)]);

    assert!(store.is_loaded());
    assert!(store.is_enabled("flag1"));
    assert!(!store.is_enabled("flag2"));
    assert!(!store.is_enabled("flag3"));
}

#[test]
fn test_feature_flag_store_overrides() {
    let mut store = FeatureFlagStore::new();
    store.set_flags(vec![FeatureFlag::new("feature", false)]);

    assert!(!store.is_enabled("feature"));

    store.set_override("feature", true);
    assert!(store.is_enabled("feature"));

    store.remove_override("feature");
    assert!(!store.is_enabled("feature"));

    store.set_override("feature", true);
    store.clear_overrides();
    assert!(!store.is_enabled("feature"));
}

#[test]
fn test_feature_flag_store_variants() {
    let mut store = FeatureFlagStore::new();
    store.set_flags(vec![FeatureFlag::with_variant("hero", true, "modern")]);

    assert_eq!(store.get_variant("hero"), Some("modern".to_string()));
    assert_eq!(store.get_variant("unknown"), None);
}

#[test]
fn test_feature_flag_store_toggle() {
    let mut store = FeatureFlagStore::new();
    store.set_flags(vec![FeatureFlag::new("test", false)]);

    assert!(!store.is_enabled("test"));

    store.toggle("test");
    assert!(store.is_enabled("test"));

    store.toggle("test");
    assert!(!store.is_enabled("test"));
}

#[test]
fn test_feature_flag_store_enable_disable() {
    let mut store = FeatureFlagStore::new();
    store.set_flags(vec![FeatureFlag::new("test", false)]);

    store.enable("test");
    assert!(store.is_enabled("test"));

    store.disable("test");
    assert!(!store.is_enabled("test"));
}

#[test]
fn test_feature_flag_store_with_flags() {
    let store = FeatureFlagStore::with_flags(vec![FeatureFlag::new("a", true), FeatureFlag::new("b", false)]);

    assert!(store.is_loaded());
    assert_eq!(store.flag_keys().len(), 2);
}

#[test]
fn test_feature_flag_store_remove_flag() {
    let mut store = FeatureFlagStore::with_flags(vec![FeatureFlag::new("a", true), FeatureFlag::new("b", true)]);

    assert_eq!(store.all_flags().len(), 2);

    store.remove_flag("a");
    assert_eq!(store.all_flags().len(), 1);
    assert!(store.get_flag("a").is_none());
}

#[test]
fn test_flag_error_display() {
    assert!(FlagError::NotFound("test".to_string()).message().contains("not found"));
    assert!(FlagError::FetchFailed("timeout".to_string()).message().contains("fetch"));
}

#[test]
fn later_flag_with_same_key_wins() {
    let store = FeatureFlagStore::with_flags(vec![FeatureFlag::new("a", true), FeatureFlag::new("a", false)]);
    assert_eq!(store.flag_keys().len(), 1);
    assert!(!store.is_enabled("a"));
}

#[test]
fn override_on_unknown_flag_and_errors() {
    let mut store = FeatureFlagStore::new();
    store.set_override("ghost", true);
    assert!(store.is_enabled("ghost"));
    store.enable("missing");
    assert!(store.get_flag("missing").is_none());
    store.set_loading(true);
    store.set_error(Some(FlagError::Network("down".to_string())));
    assert!(!store.is_loading());
    assert_eq!(store.error(), Some(FlagError::Network("down".to_string())));
    store.set_flags(vec![]);
    assert_eq!(store.error(), None);
    store.clear();
    assert!(!store.is_loaded());
    assert!(store.is_enabled("ghost"));
    assert_eq!(store.overrides().get("ghost"), Some(&true));
}

#[test]
fn feature_components_logic() {
    let mut store = FeatureFlagStore::with_flags(vec![FeatureFlag::with_variant("hero", true, "modern")]);
    assert!(feature_visible(&store, "hero", false));
    assert!(!feature_visible(&store, "hero", true));
    assert!(feature_visible(&store, "nothing", true));
    assert!(variant_matches(&store, "hero", "modern"));
    assert!(!variant_matches(&store, "hero", "classic"));
    store.set_flag(FeatureFlag::new("hero", false));
    assert!(!variant_matches(&store, "hero", "modern"));
}

#[test]
fn flag_error_messages() {
    assert_eq!(FlagError::InvalidConfig("x".to_string()).message(), "Invalid flag configuration: x");
    assert_eq!(FlagError::Network("y".to_string()).message(), "Network error: y");
}
