//! The course of a request that changes policies or the schema: the
//! change itself, the flush of the authorization caches, and the rollback
//! of the change when the flush fails. The steps themselves are carried
//! out by the caller, which reports each outcome back.

use vstd::prelude::*;
use crate::errors::{AgentError, AgentErrorView};
use crate::routes::policies::{
    PolicyChange, PolicyChangeView, PolicyStoreFailure, PolicyStoreFailureView, change_error,
    policy_change_error,
};
use crate::schemas::json::{Json, JsonValue};
use crate::text::{concat2, concat3};

verus! {

/// A change of the schema.
#[derive(Debug, Clone, Copy, PartialEq, Eq, Structural)]
pub enum SchemaChange {
    /// Put a new schema document in place (also after an attribute edit):
    /// it is converted, checked against the policies and entities, and stored.
    Replace,
    /// Delete the schema.
    Delete,
}

/// What a mutating request changes.
pub enum Mutation {
    Policy(PolicyChange),
    Schema(SchemaChange),
}

/// What a mutating request changes, as plain values.
pub enum MutationView {
    Policy(PolicyChangeView),
    Schema(SchemaChange),
}

/// The next thing to do in the course of a mutating request.
#[derive(Debug, Clone, Copy, PartialEq, Eq, Structural)]
pub enum Step {
    /// Make the change of the policy set in the policy store.
    ApplyPolicyChange,
    /// Convert the new schema document to a Cedar schema.
    ConvertSchema,
    /// Check the current policies against the new schema and store them with it.
    RevalidatePolicies,
    /// Check the current entities against the new schema and store them with it.
    RevalidateEntities,
    /// Store the new schema document.
    StoreSchema,
    /// Delete the schema from the schema store.
    DeleteSchema,
    /// Flush the authorization caches of the invalidation targets.
    Invalidate,
    /// Put the policies from before the change back, with the current schema.
    RestorePolicies,
    /// Put the schema document from before the change back.
    RestoreSchema,
    /// Convert the schema document from before the change to a Cedar schema.
    ConvertPreviousSchema,
    /// Put the policies from before the change back, with the previous schema.
    RestorePreviousPolicies,
    /// Put the entities from before the change back, with the previous schema.
    RestorePreviousEntities,
    /// Answer the request with the outcome.
    Finish,
}

/// The state of a mutating request; `P` is the policy set and `E` the
/// entity data, as the stores hand them out.
pub struct MutationFlow<P, E> {
    mutation: Mutation,
    step: Step,
    invalidation_error: String,
    outcome: Result<(), AgentError>,
    document: Option<JsonValue>,
    previous: Option<JsonValue>,
    previous_policies: Option<P>,
    previous_entities: Option<E>,
}

/// The state of a mutating request, as plain values.
pub struct FlowView<P, E> {
    pub mutation: MutationView,
    pub step: Step,
    /// The message of the failed flush, once one failed.
    pub invalidation_error: Seq<char>,
    /// The answer, once the step is `Finish`.
    pub outcome: Result<(), AgentErrorView>,
    /// The schema document that the conversion and store steps put in
    /// place, when the course carries one.
    pub document: Option<Json>,
    /// The schema document from before the change, that the rollback puts
    /// back, when the course carries one.
    pub previous: Option<Json>,
    /// The policies from before the change, that the rollback puts back.
    pub previous_policies: Option<P>,
    /// The entities from before the change, that the rollback puts back.
    pub previous_entities: Option<E>,
}

/// The plain value of an optional JSON document.
pub open spec fn document_view(d: Option<JsonValue>) -> Option<Json> {
    match d {
        Some(j) => Some(j@),
        None => None,
    }
}

/// The plain value of an answer.
pub open spec fn outcome_view(r: Result<(), AgentError>) -> Result<(), AgentErrorView> {
    match r {
        Ok(_) => Ok(()),
        Err(e) => Err(e@),
    }
}

/// The plain value of a step's outcome.
pub open spec fn step_result_view(r: Result<(), String>) -> Result<(), Seq<char>> {
    match r {
        Ok(_) => Ok(()),
        Err(e) => Err(e@),
    }
}

impl<P, E> View for MutationFlow<P, E> {
    type V = FlowView<P, E>;

    closed spec fn view(&self) -> FlowView<P, E> {
        FlowView {
            mutation: match self.mutation {
                Mutation::Policy(c) => MutationView::Policy(c@),
                Mutation::Schema(c) => MutationView::Schema(c),
            },
            step: self.step,
            invalidation_error: self.invalidation_error@,
            outcome: outcome_view(self.outcome),
            document: document_view(self.document),
            previous: document_view(self.previous),
            previous_policies: self.previous_policies,
            previous_entities: self.previous_entities,
        }
    }
}

/// The first step of a mutating request.
pub open spec fn first_step(m: MutationView) -> Step {
    match m {
        MutationView::Policy(_) => Step::ApplyPolicyChange,
        MutationView::Schema(SchemaChange::Replace) => Step::ConvertSchema,
        MutationView::Schema(SchemaChange::Delete) => Step::DeleteSchema,
    }
}

/// The state in which a mutating request starts.
pub open spec fn start<P, E>(m: MutationView) -> FlowView<P, E> {
    FlowView {
        mutation: m,
        step: first_step(m),
        invalidation_error: Seq::empty(),
        outcome: Ok(()),
        document: None,
        previous: None,
        previous_policies: None,
        previous_entities: None,
    }
}

/// The state in which the replacement of schema document `previous` by
/// `document` starts; `policies` and `entities` are what the stores held.
pub open spec fn start_replace<P, E>(document: Json, previous: Json, policies: P, entities: E) -> FlowView<
    P,
    E,
> {
    FlowView {
        document: Some(document),
        previous: Some(previous),
        previous_policies: Some(policies),
        previous_entities: Some(entities),
        ..start::<P, E>(MutationView::Schema(SchemaChange::Replace))
    }
}

/// The state in which the deletion of schema document `previous` starts;
/// `policies` and `entities` are what the stores held.
pub open spec fn start_delete<P, E>(previous: Json, policies: P, entities: E) -> FlowView<P, E> {
    FlowView {
        previous: Some(previous),
        previous_policies: Some(policies),
        previous_entities: Some(entities),
        ..start::<P, E>(MutationView::Schema(SchemaChange::Delete))
    }
}

/// The state in which a change of the policy set starts; `policies` is the
/// policy set from before it.
pub open spec fn start_policy<P, E>(change: PolicyChangeView, policies: P) -> FlowView<P, E> {
    FlowView { previous_policies: Some(policies), ..start::<P, E>(MutationView::Policy(change)) }
}

/// The state that answers with `outcome`.
pub open spec fn finish<P, E>(v: FlowView<P, E>, outcome: Result<(), AgentErrorView>) -> FlowView<P, E> {
    FlowView { step: Step::Finish, outcome, ..v }
}

/// The answer when the flush failed with `err` and the change was undone;
/// `what` is `policy` or `schema`.
pub open spec fn rolled_back_reason(what: Seq<char>, err: Seq<char>) -> Seq<char> {
    "Authorization cache invalidation failed ("@ + what + " change rolled back): "@ + err
}

/// The answer when the flush failed with `err` and undoing the change
/// failed with `rollback_err`.
pub open spec fn rollback_failed_reason(err: Seq<char>, rollback_err: Seq<char>) -> Seq<char> {
    "Authorization cache invalidation failed and rollback failed: "@ + err + " (rollback error: "@
        + rollback_err + ")"@
}

/// The plain value of the outcome of a change of the policy set.
pub open spec fn failure_result_view(r: Result<(), PolicyStoreFailure>) -> Result<(), PolicyStoreFailureView> {
    match r {
        Ok(_) => Ok(()),
        Err(f) => Err(f@),
    }
}

/// The state after the change of the policy set was tried.
pub open spec fn after_policy_change<P, E>(v: FlowView<P, E>, r: Result<(), PolicyStoreFailureView>) -> FlowView<P, E> {
    if v.step == Step::ApplyPolicyChange && v.mutation is Policy {
        match r {
            Ok(_) => FlowView { step: Step::Invalidate, ..v },
            Err(f) => finish(v, Err(policy_change_error(v.mutation->Policy_0, f))),
        }
    } else {
        v
    }
}

/// The state after a step other than the change of the policy set, given
/// its outcome.
pub open spec fn after_step<P, E>(v: FlowView<P, E>, r: Result<(), Seq<char>>) -> FlowView<P, E> {
    let bad = |reason: Seq<char>| Err(AgentErrorView::BadRequest { reason });
    let failed = |rerr: Seq<char>| finish(v, bad(rollback_failed_reason(v.invalidation_error, rerr)));
    match v.step {
        Step::ConvertSchema => match r {
            Ok(_) => FlowView { step: Step::RevalidatePolicies, ..v },
            Err(e) => finish(v, bad(e)),
        },
        Step::RevalidatePolicies => match r {
            Ok(_) => FlowView { step: Step::RevalidateEntities, ..v },
            Err(e) => finish(v, bad("Existing policies invalid with the new schema: "@ + e)),
        },
        Step::RevalidateEntities => match r {
            Ok(_) => FlowView { step: Step::StoreSchema, ..v },
            Err(e) => finish(v, bad("Existing entities invalid with the new schema: "@ + e)),
        },
        Step::StoreSchema => match r {
            Ok(_) => FlowView { step: Step::Invalidate, ..v },
            Err(e) => finish(v, bad(e)),
        },
        Step::DeleteSchema => FlowView { step: Step::Invalidate, ..v },
        Step::Invalidate => match r {
            Ok(_) => finish(v, Ok(())),
            Err(e) => FlowView {
                step: if v.mutation is Policy {
                    Step::RestorePolicies
                } else {
                    Step::RestoreSchema
                },
                invalidation_error: e,
                ..v
            },
        },
        Step::RestorePolicies => match r {
            Ok(_) => finish(v, bad(rolled_back_reason("policy"@, v.invalidation_error))),
            Err(e) => failed(e),
        },
        Step::RestoreSchema => match r {
            Ok(_) => FlowView { step: Step::ConvertPreviousSchema, ..v },
            Err(e) => failed("schema rollback failed: "@ + e),
        },
        Step::ConvertPreviousSchema => match r {
            Ok(_) => FlowView { step: Step::RestorePreviousPolicies, ..v },
            Err(e) => failed("schema rollback conversion failed: "@ + e),
        },
        Step::RestorePreviousPolicies => match r {
            Ok(_) => FlowView { step: Step::RestorePreviousEntities, ..v },
            Err(e) => failed("policies rollback failed: "@ + e),
        },
        Step::RestorePreviousEntities => match r {
            Ok(_) => finish(v, bad(rolled_back_reason("schema"@, v.invalidation_error))),
            Err(e) => failed("entities rollback failed: "@ + e),
        },
        Step::ApplyPolicyChange => v,
        Step::Finish => v,
    }
}

fn rolled_back(what: &str, err: &String) -> (r: AgentError)
    ensures
        r@ == (AgentErrorView::BadRequest { reason: rolled_back_reason(what@, err@) }),
{
    let head = concat3("Authorization cache invalidation failed (", what, " change rolled back): ");
    AgentError::BadRequest { reason: concat2(head.as_str(), err.as_str()) }
}

fn rollback_failed(err: &String, prefix: &str, rerr: &String) -> (r: AgentError)
    ensures
        r@ == (AgentErrorView::BadRequest { reason: rollback_failed_reason(err@, prefix@ + rerr@) }),
{
    let inner = concat2(prefix, rerr.as_str());
    let head = concat3("Authorization cache invalidation failed and rollback failed: ", err.as_str(), " (rollback error: ");
    let reason = concat3(head.as_str(), inner.as_str(), ")");
    assert(reason@ =~= rollback_failed_reason(err@, prefix@ + rerr@));
    AgentError::BadRequest { reason }
}

impl<P, E> MutationFlow<P, E> {
    /// The course of a change of the policy set; `previous_policies` is the
    /// policy set from before it, that the rollback puts back.
    pub fn policy(change: PolicyChange, previous_policies: P) -> (r: Self)
        ensures
            r@ == start_policy::<P, E>(change@, previous_policies),
    {
        MutationFlow {
            mutation: Mutation::Policy(change),
            step: Step::ApplyPolicyChange,
            invalidation_error: String::new(),
            outcome: Ok(()),
            document: None,
            previous: None,
            previous_policies: Some(previous_policies),
            previous_entities: None,
        }
    }

    /// The course that replaces the schema document `previous` by
    /// `document`: `document` is what the conversion and store steps put
    /// in place; `previous`, `previous_policies` and `previous_entities`
    /// are what the rollback puts back.
    pub fn replace_schema(
        document: JsonValue,
        previous: JsonValue,
        previous_policies: P,
        previous_entities: E,
    ) -> (r: Self)
        ensures
            r@ == start_replace(document@, previous@, previous_policies, previous_entities),
    {
        MutationFlow {
            mutation: Mutation::Schema(SchemaChange::Replace),
            step: Step::ConvertSchema,
            invalidation_error: String::new(),
            outcome: Ok(()),
            document: Some(document),
            previous: Some(previous),
            previous_policies: Some(previous_policies),
            previous_entities: Some(previous_entities),
        }
    }

    /// The course that deletes the schema document `previous`; the
    /// rollback puts `previous`, `previous_policies` and
    /// `previous_entities` back.
    pub fn delete_schema(previous: JsonValue, previous_policies: P, previous_entities: E) -> (r: Self)
        ensures
            r@ == start_delete(previous@, previous_policies, previous_entities),
    {
        MutationFlow {
            mutation: Mutation::Schema(SchemaChange::Delete),
            step: Step::DeleteSchema,
            invalidation_error: String::new(),
            outcome: Ok(()),
            document: None,
            previous: Some(previous),
            previous_policies: Some(previous_policies),
            previous_entities: Some(previous_entities),
        }
    }

    /// The schema document the conversion and store steps put in place.
    pub fn document(&self) -> (r: Option<&JsonValue>)
        ensures
            r is None <==> self@.document is None,
            r matches Some(d) ==> self@.document == Some(d@),
    {
        match &self.document {
            Some(d) => Some(d),
            None => None,
        }
    }

    /// The schema document the rollback puts back.
    pub fn previous_document(&self) -> (r: Option<&JsonValue>)
        ensures
            r is None <==> self@.previous is None,
            r matches Some(d) ==> self@.previous == Some(d@),
    {
        match &self.previous {
            Some(d) => Some(d),
            None => None,
        }
    }

    /// The policy set the rollback puts back.
    pub fn previous_policies(&self) -> (r: Option<&P>)
        ensures
            r is None <==> self@.previous_policies is None,
            r matches Some(p) ==> self@.previous_policies == Some(*p),
    {
        match &self.previous_policies {
            Some(p) => Some(p),
            None => None,
        }
    }

    /// The entity data the rollback puts back.
    pub fn previous_entities(&self) -> (r: Option<&E>)
        ensures
            r is None <==> self@.previous_entities is None,
            r matches Some(e) ==> self@.previous_entities == Some(*e),
    {
        match &self.previous_entities {
            Some(e) => Some(e),
            None => None,
        }
    }

    /// What to do next.
    pub fn next_step(&self) -> (r: Step)
        ensures
            r == self@.step,
    {
        self.step
    }

    /// Reports the outcome of the change of the policy set.
    pub fn policy_change_done(&mut self, r: Result<(), PolicyStoreFailure>)
        ensures
            final(self)@ == after_policy_change(old(self)@, failure_result_view(r)),
    {
        if let Step::ApplyPolicyChange = self.step {
            if let Mutation::Policy(change) = &self.mutation {
                match r {
                    Ok(()) => {
                        self.step = Step::Invalidate;
                    },
                    Err(f) => {
                        let e = change_error(change, f);
                        self.outcome = Err(e);
                        self.step = Step::Finish;
                    },
                }
            }
        }
    }

    /// Reports the outcome of the current step, other than the change of
    /// the policy set.
    pub fn step_done(&mut self, r: Result<(), String>)
        ensures
            final(self)@ == after_step(old(self)@, step_result_view(r)),
    {
        match self.step {
            Step::ConvertSchema | Step::StoreSchema => match r {
                Ok(()) => {
                    self.step = if let Step::ConvertSchema = self.step {
                        Step::RevalidatePolicies
                    } else {
                        Step::Invalidate
                    };
                },
                Err(e) => {
                    self.outcome = Err(AgentError::BadRequest { reason: e });
                    self.step = Step::Finish;
                },
            },
            Step::RevalidatePolicies => match r {
                Ok(()) => {
                    self.step = Step::RevalidateEntities;
                },
                Err(e) => {
                    self.outcome = Err(AgentError::BadRequest {
                        reason: concat2("Existing policies invalid with the new schema: ", e.as_str()),
                    });
                    self.step = Step::Finish;
                },
            },
            Step::RevalidateEntities => match r {
                Ok(()) => {
                    self.step = Step::StoreSchema;
                },
                Err(e) => {
                    self.outcome = Err(AgentError::BadRequest {
                        reason: concat2("Existing entities invalid with the new schema: ", e.as_str()),
                    });
                    self.step = Step::Finish;
                },
            },
            Step::DeleteSchema => {
                self.step = Step::Invalidate;
            },
            Step::Invalidate => match r {
                Ok(()) => {
                    self.outcome = Ok(());
                    self.step = Step::Finish;
                },
                Err(e) => {
                    self.step = if let Mutation::Policy(_) = self.mutation {
                        Step::RestorePolicies
                    } else {
                        Step::RestoreSchema
                    };
                    self.invalidation_error = e;
                },
            },
            Step::RestorePolicies => {
                let e = match r {
                    Ok(()) => rolled_back("policy", &self.invalidation_error),
                    Err(re) => rollback_failed(&self.invalidation_error, "", &re),
                };
                proof {
                    reveal_strlit("");
                }
                self.outcome = Err(e);
                self.step = Step::Finish;
            },
            Step::RestoreSchema | Step::ConvertPreviousSchema | Step::RestorePreviousPolicies => match r {
                Ok(()) => {
                    self.step = match self.step {
                        Step::RestoreSchema => Step::ConvertPreviousSchema,
                        Step::ConvertPreviousSchema => Step::RestorePreviousPolicies,
                        _ => Step::RestorePreviousEntities,
                    };
                },
                Err(re) => {
                    let prefix = match self.step {
                        Step::RestoreSchema => "schema rollback failed: ",
                        Step::ConvertPreviousSchema => "schema rollback conversion failed: ",
                        _ => "policies rollback failed: ",
                    };
                    self.outcome = Err(rollback_failed(&self.invalidation_error, prefix, &re));
                    self.step = Step::Finish;
                },
            },
            Step::RestorePreviousEntities => {
                let e = match r {
                    Ok(()) => rolled_back("schema", &self.invalidation_error),
                    Err(re) => rollback_failed(&self.invalidation_error, "entities rollback failed: ", &re),
                };
                self.outcome = Err(e);
                self.step = Step::Finish;
            },
            Step::ApplyPolicyChange | Step::Finish => {},
        }
    }

    /// The answer to the request, once the course is finished.
    pub fn finished(self) -> (r: Option<Result<(), AgentError>>)
        ensures
            r is Some <==> self@.step == Step::Finish,
            r matches Some(o) ==> outcome_view(o) == self@.outcome,
    {
        match self.step {
            Step::Finish => Some(self.outcome),
            _ => None,
        }
    }
}

/// The state after the steps' outcomes `outcomes`, in order.
pub open spec fn run<P, E>(v: FlowView<P, E>, outcomes: Seq<Result<(), Seq<char>>>) -> FlowView<P, E>
    decreases outcomes.len(),
{
    if outcomes.len() == 0 {
        v
    } else {
        after_step(run(v, outcomes.drop_last()), outcomes.last())
    }
}

/// The prefix named in the answer when rollback step `k` of a schema
/// change fails.
pub open spec fn schema_rollback_prefix(k: int) -> Seq<char> {
    if k == 0 {
        "schema rollback failed: "@
    } else if k == 1 {
        "schema rollback conversion failed: "@
    } else if k == 2 {
        "policies rollback failed: "@
    } else {
        "entities rollback failed: "@
    }
}

/// `n` successful outcomes.
pub open spec fn oks(n: nat) -> Seq<Result<(), Seq<char>>> {
    Seq::new(n, |i: int| Ok(()))
}

/// Once answered, a request does nothing more.
pub proof fn lemma_finish_is_final<P, E>(v: FlowView<P, E>, outcomes: Seq<Result<(), Seq<char>>>)
    requires
        v.step == Step::Finish,
    ensures
        run(v, outcomes) == v,
    decreases outcomes.len(),
{
    if outcomes.len() > 0 {
        lemma_finish_is_final(v, outcomes.drop_last());
    }
}

/// A change of the schema whose steps and flush all succeed is answered
/// with success.
pub proof fn lemma_schema_change_succeeds<P, E>(change: SchemaChange)
    ensures
        ({
            let n: nat = if change == SchemaChange::Replace { 5 } else { 2 };
            let w = run(start::<P, E>(MutationView::Schema(change)), oks(n));
            w.step == Step::Finish && w.outcome == Ok::<(), AgentErrorView>(())
        }),
{
    reveal_with_fuel(run, 6);
    let o = oks(5);
    assert(o.drop_last() =~= oks(4));
    assert(oks(4).drop_last() =~= oks(3));
    assert(oks(3).drop_last() =~= oks(2));
    assert(oks(2).drop_last() =~= oks(1));
    assert(oks(1).drop_last() =~= oks(0));
}

/// A change of the policy set that the store makes and whose flush
/// succeeds is answered with success.
pub proof fn lemma_policy_change_succeeds<P, E>(change: PolicyChangeView)
    ensures
        ({
            let w = after_step(after_policy_change(start::<P, E>(MutationView::Policy(change)), Ok(())), Ok(()));
            w.step == Step::Finish && w.outcome == Ok::<(), AgentErrorView>(())
        }),
{
}

/// A change of the policy set that the store refuses is answered at once
/// with the error for that failure; nothing is flushed.
pub proof fn lemma_refused_policy_change<P, E>(change: PolicyChangeView, f: PolicyStoreFailureView)
    ensures
        ({
            let w = after_policy_change(start::<P, E>(MutationView::Policy(change)), Err(f));
            &&& w.step == Step::Finish
            &&& w.outcome == Err::<(), AgentErrorView>(policy_change_error(change, f))
        }),
{
}

/// A step of a schema change that fails ends the request with an error;
/// no later step, the flush among them, is taken.
pub proof fn lemma_failed_schema_step<P, E>(v: FlowView<P, E>, e: Seq<char>, rest: Seq<Result<(), Seq<char>>>)
    requires
        v.step == Step::ConvertSchema || v.step == Step::RevalidatePolicies
            || v.step == Step::RevalidateEntities || v.step == Step::StoreSchema,
    ensures
        run(after_step(v, Err(e)), rest) == after_step(v, Err(e)),
        after_step(v, Err(e)).step == Step::Finish,
        after_step(v, Err(e)).outcome is Err,
{
    lemma_finish_is_final(after_step(v, Err(e)), rest);
}

/// When the flush after a policy change fails, the policies from before
/// are put back and the request is answered with an error that says
/// whether that worked.
pub proof fn lemma_policy_rollback<P, E>(v: FlowView<P, E>, err: Seq<char>, r: Result<(), Seq<char>>)
    requires
        v.step == Step::Invalidate,
        v.mutation is Policy,
    ensures
        after_step(v, Err(err)).step == Step::RestorePolicies,
        ({
            let w = after_step(after_step(v, Err(err)), r);
            &&& w.step == Step::Finish
            &&& w.outcome == Err::<(), AgentErrorView>(AgentErrorView::BadRequest {
                reason: match r {
                    Ok(_) => rolled_back_reason("policy"@, err),
                    Err(re) => rollback_failed_reason(err, re),
                },
            })
        }),
{
}

/// When the flush after a schema change fails, the schema, policies and
/// entities from before are put back in turn; when all of that works the
/// answer says the change was rolled back, and when step `k` of it fails
/// with `re` the answer names that failure and nothing more is put back.
pub proof fn lemma_schema_rollback<P, E>(v: FlowView<P, E>, err: Seq<char>, k: int, re: Seq<char>)
    requires
        v.step == Step::Invalidate,
        v.mutation is Schema,
        0 <= k < 4,
    ensures
        after_step(v, Err(err)).step == Step::RestoreSchema,
        ({
            let w = run(after_step(v, Err(err)), oks(4));
            &&& w.step == Step::Finish
            &&& w.outcome == Err::<(), AgentErrorView>(
                AgentErrorView::BadRequest { reason: rolled_back_reason("schema"@, err) },
            )
        }),
        ({
            let w = run(after_step(v, Err(err)), oks(k as nat).push(Err(re)));
            &&& w.step == Step::Finish
            &&& w.outcome == Err::<(), AgentErrorView>(
                AgentErrorView::BadRequest {
                    reason: rollback_failed_reason(err, schema_rollback_prefix(k) + re),
                },
            )
        }),
{
    reveal_with_fuel(run, 5);
    let w0 = after_step(v, Err(err));
    assert(oks(4).drop_last() =~= oks(3));
    assert(oks(3).drop_last() =~= oks(2));
    assert(oks(2).drop_last() =~= oks(1));
    assert(oks(1).drop_last() =~= oks(0));
    assert(oks(k as nat).push(Err(re)).drop_last() =~= oks(k as nat));
    assert(run(w0, oks(0)) == w0);
}

/// No step changes what a course changes, nor the documents, policies and
/// entities it carries.
pub proof fn lemma_run_keeps_documents<P, E>(v: FlowView<P, E>, outcomes: Seq<Result<(), Seq<char>>>)
    ensures
        run(v, outcomes).mutation == v.mutation,
        run(v, outcomes).document == v.document,
        run(v, outcomes).previous == v.previous,
        run(v, outcomes).previous_policies == v.previous_policies,
        run(v, outcomes).previous_entities == v.previous_entities,
    decreases outcomes.len(),
{
    if outcomes.len() > 0 {
        lemma_run_keeps_documents(v, outcomes.drop_last());
    }
}

/// Running two sequences of outcomes one after the other is running
/// their concatenation.
pub proof fn lemma_run_append<P, E>(v: FlowView<P, E>, a: Seq<Result<(), Seq<char>>>, b: Seq<Result<(), Seq<char>>>)
    ensures
        run(v, a + b) == run(run(v, a), b),
    decreases b.len(),
{
    if b.len() == 0 {
        assert(a + b =~= a);
    } else {
        lemma_run_append(v, a, b.drop_last());
        assert((a + b).drop_last() =~= a + b.drop_last());
        assert((a + b).last() == b.last());
    }
}

/// The whole course of replacing schema document `previous` by
/// `document`. The conversion and store steps are handed `document` and
/// the rollback `previous`, `policies` and `entities` throughout. When the four change steps and the
/// flush succeed the answer is success; when the flush fails with `err`
/// after the four change steps succeeded, the four rollback steps follow,
/// and when they succeed the answer says the change was rolled back.
pub proof fn lemma_replace_course<P, E>(document: Json, previous: Json, policies: P, entities: E, err: Seq<char>)
    ensures
        ({
            let w = run(start_replace(document, previous, policies, entities), oks(5));
            &&& w.step == Step::Finish
            &&& w.outcome == Ok::<(), AgentErrorView>(())
            &&& w.document == Some(document)
            &&& w.previous == Some(previous)
        }),
        ({
            let w = run(start_replace(document, previous, policies, entities), oks(4).push(Err(err)) + oks(4));
            &&& w.step == Step::Finish
            &&& w.outcome == Err::<(), AgentErrorView>(
                AgentErrorView::BadRequest { reason: rolled_back_reason("schema"@, err) },
            )
            &&& w.document == Some(document)
            &&& w.previous == Some(previous)
            &&& w.previous_policies == Some(policies)
            &&& w.previous_entities == Some(entities)
        }),
{
    let v = start_replace(document, previous, policies, entities);
    reveal_with_fuel(run, 6);
    assert(oks(5).drop_last() =~= oks(4));
    assert(oks(4).drop_last() =~= oks(3));
    assert(oks(3).drop_last() =~= oks(2));
    assert(oks(2).drop_last() =~= oks(1));
    assert(oks(1).drop_last() =~= oks(0));
    assert(run(v, oks(4)).step == Step::Invalidate);
    let a = oks(4).push(Err(err));
    assert(a.drop_last() =~= oks(4));
    lemma_run_append(v, a, oks(4));
    lemma_schema_rollback(run(v, oks(4)), err, 0, Seq::empty());
    lemma_run_keeps_documents(v, oks(5));
    lemma_run_keeps_documents(v, a + oks(4));
}

/// The whole course of deleting schema document `previous`: with a
/// successful flush the answer is success; when the flush fails with
/// `err` and the four rollback steps succeed, the answer says the change
/// was rolled back; the rollback is handed `previous`, `policies` and
/// `entities` throughout.
pub proof fn lemma_delete_course<P, E>(previous: Json, policies: P, entities: E, err: Seq<char>)
    ensures
        ({
            let w = run(start_delete(previous, policies, entities), oks(2));
            w.step == Step::Finish && w.outcome == Ok::<(), AgentErrorView>(())
        }),
        ({
            let w = run(start_delete(previous, policies, entities), seq![Ok(()), Err(err)] + oks(4));
            &&& w.step == Step::Finish
            &&& w.outcome == Err::<(), AgentErrorView>(
                AgentErrorView::BadRequest { reason: rolled_back_reason("schema"@, err) },
            )
            &&& w.previous == Some(previous)
            &&& w.previous_policies == Some(policies)
            &&& w.previous_entities == Some(entities)
        }),
{
    let v = start_delete(previous, policies, entities);
    reveal_with_fuel(run, 3);
    assert(oks(2).drop_last() =~= oks(1));
    assert(oks(1).drop_last() =~= oks(0));
    let a: Seq<Result<(), Seq<char>>> = seq![Ok(()), Err(err)];
    assert(a.drop_last() =~= oks(1));
    assert(run(v, oks(1)).step == Step::Invalidate);
    lemma_run_append(v, a, oks(4));
    lemma_schema_rollback(run(v, oks(1)), err, 0, Seq::empty());
    lemma_run_keeps_documents(v, a + oks(4));
}

} // verus!
