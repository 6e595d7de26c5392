//! Errors that the agent's routes answer with.

use vstd::prelude::*;

verus! {

/// An error answered to a client of the agent.
#[derive(Debug)]
pub enum AgentError {
    /// The request cannot be carried out as asked.
    BadRequest { reason: String },
    /// The object named by the request does not exist.
    NotFound { object: &'static str, id: String },
    /// The object named by the request already exists.
    Duplicate { object: &'static str, id: String },
}

/// The error a view of the error stands for: its variant, object and text.
pub enum AgentErrorView {
    BadRequest { reason: Seq<char> },
    NotFound { object: Seq<char>, id: Seq<char> },
    Duplicate { object: Seq<char>, id: Seq<char> },
}

impl View for AgentError {
    type V = AgentErrorView;

    open spec fn view(&self) -> AgentErrorView {
        match self {
            AgentError::BadRequest { reason } => AgentErrorView::BadRequest { reason: reason@ },
            AgentError::NotFound { object, id } => AgentErrorView::NotFound {
                object: object@,
                id: id@,
            },
            AgentError::Duplicate { object, id } => AgentErrorView::Duplicate {
                object: object@,
                id: id@,
            },
        }
    }
}

} // verus!
