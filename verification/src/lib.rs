//! Structured, predictable state management for stores: audit trails,
//! cross-store coordination, dependency ordering, middleware pipelines,
//! persistence adapters, time-travel debugging and feature flags.

pub mod clock;
pub mod store;
pub mod dependency_graph;
pub mod coordination;
pub mod text;
pub mod audit;
pub mod priority;
pub mod keyed_map;
pub mod middleware;
pub mod persistence;
pub mod devtools;
pub mod server;
pub mod templates;
pub mod composition;
pub mod prelude;
