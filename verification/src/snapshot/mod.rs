//! Snapshots of state.
pub mod mutation_policy;
