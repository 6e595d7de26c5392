//! How the policy routes answer a failure of the policy store.

use vstd::prelude::*;
use crate::errors::{AgentError, AgentErrorView};
use crate::text::{concat2, str_eq};

verus! {

/// A failure of the policy store, as the policy routes tell them apart.
pub enum PolicyStoreFailure {
    /// A policy is invalid; the reason the store gave.
    Invalid { reason: String },
    /// Policies could not be parsed; the parse errors, as text.
    Parse { errors: String },
    /// Another error of the policy store; its message.
    OtherPolicyError { message: String },
    /// An I/O error of kind "already exists"; its message.
    AlreadyExists { message: String },
    /// Any other error; its message.
    Other { message: String },
}

/// A failure of the policy store as plain values.
pub enum PolicyStoreFailureView {
    Invalid(Seq<char>),
    Parse(Seq<char>),
    OtherPolicyError(Seq<char>),
    AlreadyExists(Seq<char>),
    Other(Seq<char>),
}

impl View for PolicyStoreFailure {
    type V = PolicyStoreFailureView;

    open spec fn view(&self) -> PolicyStoreFailureView {
        match self {
            PolicyStoreFailure::Invalid { reason } => PolicyStoreFailureView::Invalid(reason@),
            PolicyStoreFailure::Parse { errors } => PolicyStoreFailureView::Parse(errors@),
            PolicyStoreFailure::OtherPolicyError { message } => PolicyStoreFailureView::OtherPolicyError(message@),
            PolicyStoreFailure::AlreadyExists { message } => PolicyStoreFailureView::AlreadyExists(message@),
            PolicyStoreFailure::Other { message } => PolicyStoreFailureView::Other(message@),
        }
    }
}

/// A change of the policy set.
pub enum PolicyChange {
    /// Add the policy with this id.
    Create { id: String },
    /// Replace all policies.
    UpdateAll,
    /// Replace one policy.
    UpdateOne,
    /// Remove the policy with this id.
    Delete { id: String },
}

/// A change of the policy set as plain values.
pub enum PolicyChangeView {
    Create(Seq<char>),
    UpdateAll,
    UpdateOne,
    Delete(Seq<char>),
}

impl View for PolicyChange {
    type V = PolicyChangeView;

    open spec fn view(&self) -> PolicyChangeView {
        match self {
            PolicyChange::Create { id } => PolicyChangeView::Create(id@),
            PolicyChange::UpdateAll => PolicyChangeView::UpdateAll,
            PolicyChange::UpdateOne => PolicyChangeView::UpdateOne,
            PolicyChange::Delete { id } => PolicyChangeView::Delete(id@),
        }
    }
}

/// The text the store's message for a duplicate id starts with.
pub open spec fn duplicate_prefix() -> Seq<char> {
    "Policy with id "@
}

/// The text the store's message for a duplicate id ends with.
pub open spec fn duplicate_suffix() -> Seq<char> {
    " already exists"@
}

/// The id named by a message `Policy with id <id> already exists`; the
/// empty string for a message of another shape.
pub open spec fn duplicate_id_spec(message: Seq<char>) -> Seq<char> {
    let p = duplicate_prefix();
    let s = duplicate_suffix();
    if message.len() >= p.len() + s.len() && message.take(p.len() as int) == p
        && message.skip(message.len() - s.len()) == s {
        message.subrange(p.len() as int, message.len() - s.len())
    } else {
        Seq::empty()
    }
}

/// The id named by the store's message for a duplicate policy.
pub fn duplicate_policy_id(message: &str) -> (r: String)
    ensures
        r@ == duplicate_id_spec(message@),
{
    let prefix = "Policy with id ";
    let suffix = " already exists";
    proof {
        reveal_strlit("Policy with id ");
        reveal_strlit(" already exists");
    }
    let n = message.unicode_len();
    let p = prefix.unicode_len();
    let s = suffix.unicode_len();
    if n >= p && n - p >= s {
        let head = message.substring_char(0, p);
        let tail = message.substring_char(n - s, n);
        if str_eq(head, prefix) && str_eq(tail, suffix) {
            assert(message@.take(p as int) =~= message@.subrange(0, p as int));
            assert(message@.skip(n - s) =~= message@.subrange(n - s, n as int));
            let id = message.substring_char(p, n - s);
            return id.to_owned();
        }
        assert(message@.take(p as int) =~= message@.subrange(0, p as int));
        assert(message@.skip(n - s) =~= message@.subrange(n - s, n as int));
    }
    String::new()
}

/// The store's message for a duplicate id names that id.
pub proof fn lemma_duplicate_id_round_trip(id: Seq<char>)
    ensures
        duplicate_id_spec(duplicate_prefix() + id + duplicate_suffix()) == id,
{
    let p = duplicate_prefix();
    let s = duplicate_suffix();
    let m = p + id + s;
    assert(m.take(p.len() as int) =~= p);
    assert(m.skip(m.len() - s.len()) =~= s);
    assert(m.subrange(p.len() as int, m.len() - s.len()) =~= id);
}

/// The answer to a failed change of the policy set.
pub open spec fn policy_change_error(change: PolicyChangeView, f: PolicyStoreFailureView) -> AgentErrorView {
    match change {
        PolicyChangeView::Delete(id) => AgentErrorView::NotFound { object: "Policy"@, id },
        _ => match f {
            PolicyStoreFailureView::Invalid(reason) => AgentErrorView::BadRequest { reason },
            PolicyStoreFailureView::Parse(errors) => AgentErrorView::BadRequest {
                reason: "Policy parsing failed: "@ + errors,
            },
            PolicyStoreFailureView::OtherPolicyError(message) => match change {
                PolicyChangeView::Create(_) => AgentErrorView::BadRequest {
                    reason: "Policy error: "@ + message,
                },
                _ => AgentErrorView::BadRequest { reason: message },
            },
            PolicyStoreFailureView::AlreadyExists(message) => match change {
                PolicyChangeView::Create(id) => AgentErrorView::Duplicate { object: "policy"@, id },
                PolicyChangeView::UpdateAll => AgentErrorView::Duplicate {
                    object: "policy"@,
                    id: duplicate_id_spec(message),
                },
                _ => AgentErrorView::BadRequest { reason: message },
            },
            PolicyStoreFailureView::Other(message) => match change {
                PolicyChangeView::Create(id) => AgentErrorView::Duplicate { object: "policy"@, id },
                _ => AgentErrorView::BadRequest { reason: message },
            },
        },
    }
}

/// The answer to a failed change of the policy set.
pub fn change_error(change: &PolicyChange, f: PolicyStoreFailure) -> (r: AgentError)
    ensures
        r@ == policy_change_error(change@, f@),
{
    match change {
        PolicyChange::Delete { id } => AgentError::NotFound { object: "Policy", id: id.clone() },
        _ => match f {
            PolicyStoreFailure::Invalid { reason } => AgentError::BadRequest { reason },
            PolicyStoreFailure::Parse { errors } => AgentError::BadRequest {
                reason: concat2("Policy parsing failed: ", errors.as_str()),
            },
            PolicyStoreFailure::OtherPolicyError { message } => match change {
                PolicyChange::Create { .. } => AgentError::BadRequest {
                    reason: concat2("Policy error: ", message.as_str()),
                },
                _ => AgentError::BadRequest { reason: message },
            },
            PolicyStoreFailure::AlreadyExists { message } => match change {
                PolicyChange::Create { id } => AgentError::Duplicate { object: "policy", id: id.clone() },
                PolicyChange::UpdateAll => AgentError::Duplicate {
                    object: "policy",
                    id: duplicate_policy_id(message.as_str()),
                },
                _ => AgentError::BadRequest { reason: message },
            },
            PolicyStoreFailure::Other { message } => match change {
                PolicyChange::Create { id } => AgentError::Duplicate { object: "policy", id: id.clone() },
                _ => AgentError::BadRequest { reason: message },
            },
        },
    }
}

/// The answer to a request for policy `id`: the policy the store found,
/// or "not found".
pub fn get_policy<P>(found: Option<P>, id: String) -> (r: Result<P, AgentError>)
    ensures
        found matches Some(p) ==> r == Ok::<P, AgentError>(p),
        found is None ==> (r matches Err(e) && e@ == (AgentErrorView::NotFound { object: "policy"@, id: id@ })),
{
    match found {
        Some(p) => Ok(p),
        None => Err(AgentError::NotFound { object: "policy", id }),
    }
}

} // verus!
