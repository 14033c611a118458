//! Ready-made stores for common application needs.

pub mod feature_flags;

pub use feature_flags::{FeatureFlag, FeatureFlagState, FeatureFlagStore, FlagError, UserContext};
