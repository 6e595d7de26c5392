//! Shapes of the agent's responses and of the schema document.

pub mod json;
pub mod schema;
pub mod stats;
