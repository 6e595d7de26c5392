//! Decisions behind the agent's routes.

pub mod invalidation;
pub mod mutation;
pub mod policies;
pub mod schema;
