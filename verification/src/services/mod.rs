//! Services of the agent: statistics and cache invalidation targets.

pub mod invalidation;
pub mod stats;
