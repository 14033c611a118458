//! The items most applications use, in one import.

pub use crate::store::{Store, StoreError, StoreId};
pub use crate::composition::StoreDependency;
pub use crate::coordination::{CoordinationError, StoreCoordinator};
pub use crate::dependency_graph::StoreDependencyGraph;
pub use crate::audit::{AuditEntry, AuditTrail, AuditUserContext, ChangeType, FieldChange, StateDiff};
pub use crate::middleware::{
    ActionContext, ActionResult as MiddlewareActionResult, ContextMetadata, EventBus, EventSubscriber, LogLevel,
    LoggingConfig, LoggingMiddleware, Middleware, MiddlewareChain, MiddlewareContext, MiddlewareError,
    MiddlewareResult, MiddlewareStore, MutationResult, StoreEvent, TimingMiddleware, TracingMiddleware,
    ValidationMiddleware,
};
pub use crate::devtools::{DevtoolsConfig, DevtoolsEvent, DevtoolsEventSubscriber, StoreInfo, TimeTravelDebugger};
pub use crate::persistence::{
    MemoryAdapter, PersistConfig, PersistError, PersistResult, PersistedState, PersistenceAdapter, PersistentStore,
    StorageCapacity, StorageType,
};
pub use crate::server::{ActionState, ServerActionError};
