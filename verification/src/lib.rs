//! Verified core of the Cedar policy decision point agent: request
//! statistics, cache invalidation targets, schema editing and the
//! decision logic of the mutating routes.

pub mod errors;
pub mod text;
pub mod write_origin;
pub mod services;
pub mod schemas;
pub mod routes;
