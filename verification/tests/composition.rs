use leptos_store::composition::StoreDependency;
use leptos_store::store::{Store, StoreId};

#[derive(Clone, Debug, Default)]
struct AuthState {
    user: Option<String>,
}

#[derive(Clone, Default)]
struct AuthStore {
    state: AuthState,
}

impl AuthStore {
    fn new() -> Self {
        Self { state: AuthState::default() }
    }
}

impl Store for AuthStore {
    type State = AuthState;
    fn state(&self) -> AuthState {
        self.state.clone()
    }
    fn id(&self) -> StoreId {
        StoreId::new(1)
    }
    fn name(&self) -> &'static str {
        "AuthStore"
    }
}

#[test]
fn test_store_dependency() {
    let mut dep: StoreDependency<AuthStore> = StoreDependency::new();
    assert!(!dep.is_resolved());

    dep.resolve(AuthStore::new());
    assert!(dep.is_resolved());
    assert!(dep.get().is_some());
}

#[test]
fn test_store_dependency_resolved() {
    let dep = StoreDependency::resolved(AuthStore::new());
    assert!(dep.is_resolved());
}

#[test]
fn store_dependency_expect_gives_the_store() {
    let mut store = AuthStore::new();
    store.state.user = Some("ann".to_string());
    let dep = StoreDependency::resolved(store);
    assert_eq!(dep.expect().state().user, Some("ann".to_string()));
    let copy = dep.clone();
    assert!(copy.is_resolved());
}
