//! Replacing the list of invalidation targets.

use vstd::prelude::*;
use crate::errors::{AgentError, AgentErrorView};
use crate::services::invalidation::{
    InvalidationTarget, InvalidationTargetView, InvalidationTargetsStore, after_replace_all,
    clone_targets, targets_view,
};
use crate::text::{concat3, is_blank, is_blank_spec};

verus! {

/// The reason given for a target without a name.
pub open spec fn empty_name_reason() -> Seq<char> {
    "Invalidation target name must be non-empty"@
}

/// The reason given for a target named `name` without a DSN.
pub open spec fn empty_dsn_reason(name: Seq<char>) -> Seq<char> {
    "Invalidation target '"@ + name + "' dsn must be non-empty"@
}

/// Whether a target before index `i` has the name of target `i`.
pub open spec fn name_taken_before(ts: Seq<InvalidationTargetView>, i: int) -> bool {
    exists|j: int| 0 <= j < i && (#[trigger] ts[j]).name == ts[i].name
}

/// What is wrong with target `i`, seen after the targets before it.
pub open spec fn target_error(ts: Seq<InvalidationTargetView>, i: int) -> Option<AgentErrorView> {
    if is_blank_spec(ts[i].name) {
        Some(AgentErrorView::BadRequest { reason: empty_name_reason() })
    } else if is_blank_spec(ts[i].dsn) {
        Some(AgentErrorView::BadRequest { reason: empty_dsn_reason(ts[i].name) })
    } else if name_taken_before(ts, i) {
        Some(AgentErrorView::Duplicate { object: "InvalidationTarget"@, id: ts[i].name })
    } else {
        None
    }
}

/// The first error among the targets from index `i` on.
pub open spec fn first_error_from(ts: Seq<InvalidationTargetView>, i: int) -> Option<AgentErrorView>
    decreases ts.len() - i,
{
    if i < 0 || i >= ts.len() {
        None
    } else if target_error(ts, i) is Some {
        target_error(ts, i)
    } else {
        first_error_from(ts, i + 1)
    }
}

/// The error a list of targets is refused with, if any: that of the first
/// target whose name or DSN is blank or whose name an earlier target has.
pub open spec fn targets_error(ts: Seq<InvalidationTargetView>) -> Option<AgentErrorView> {
    first_error_from(ts, 0)
}

/// Whether target `i` has the name of an earlier target.
fn name_is_taken(ts: &Vec<InvalidationTarget>, i: usize) -> (r: bool)
    requires
        i < ts.len(),
    ensures
        r == name_taken_before(targets_view(ts@), i as int),
{
    let ghost tv = targets_view(ts@);
    for j in 0..i
        invariant
            i < ts.len(),
            tv == targets_view(ts@),
            forall|k: int| 0 <= k < j ==> tv[k].name != tv[i as int].name,
    {
        if ts[j].name == ts[i].name {
            assert(tv[j as int].name == tv[i as int].name);
            return true;
        }
    }
    false
}

/// Checks a list of targets: every name and DSN must be non-blank and
/// the names distinct. The error is that of the first target at fault.
pub fn validate_targets(ts: &Vec<InvalidationTarget>) -> (r: Result<(), AgentError>)
    ensures
        r matches Ok(_) <==> targets_error(targets_view(ts@)) is None,
        r matches Err(e) ==> targets_error(targets_view(ts@)) == Some(e@),
{
    let ghost tv = targets_view(ts@);
    let n = ts.len();
    for i in 0..n
        invariant
            n == ts.len(),
            tv == targets_view(ts@),
            first_error_from(tv, 0) == first_error_from(tv, i as int),
    {
        let t = &ts[i];
        assert(tv[i as int] == t@);
        if is_blank(t.name.as_str()) {
            return Err(AgentError::BadRequest {
                reason: "Invalidation target name must be non-empty".to_owned(),
            });
        }
        if is_blank(t.dsn.as_str()) {
            return Err(AgentError::BadRequest {
                reason: concat3("Invalidation target '", t.name.as_str(), "' dsn must be non-empty"),
            });
        }
        if name_is_taken(ts, i) {
            return Err(AgentError::Duplicate { object: "InvalidationTarget", id: t.name.clone() });
        }
    }
    Ok(())
}

/// Replaces the invalidation targets with `new_targets` when they pass
/// `validate_targets`, and answers with them; a refused list leaves the
/// store as it was.
pub fn put_invalidation_targets(
    targets: &mut InvalidationTargetsStore,
    new_targets: Vec<InvalidationTarget>,
) -> (r: Result<Vec<InvalidationTarget>, AgentError>)
    ensures
        r matches Ok(_) <==> targets_error(targets_view(new_targets@)) is None,
        r matches Ok(list) ==> targets_view(list@) == targets_view(new_targets@)
            && final(targets)@ == after_replace_all(old(targets)@, targets_view(new_targets@)),
        r matches Err(e) ==> targets_error(targets_view(new_targets@)) == Some(e@)
            && final(targets)@ == old(targets)@,
{
    match validate_targets(&new_targets) {
        Err(e) => Err(e),
        Ok(()) => {
            let copy = clone_targets(&new_targets);
            proof {
                lemma_targets_accepted_iff(targets_view(new_targets@));
            }
            targets.replace_all(copy);
            Ok(new_targets)
        },
    }
}

/// A list of targets is accepted exactly when every name and DSN is
/// non-blank and no two targets share a name.
pub proof fn lemma_targets_accepted_iff(ts: Seq<InvalidationTargetView>)
    ensures
        targets_error(ts) is None <==> (
            (forall|i: int| 0 <= i < ts.len() ==> !is_blank_spec(#[trigger] ts[i].name)
                && !is_blank_spec(ts[i].dsn))
            && (forall|i: int, j: int| 0 <= i < j < ts.len() ==> ts[i].name != ts[j].name)),
{
    lemma_first_error_from(ts, 0);
    let ok = forall|i: int| 0 <= i < ts.len() ==> (#[trigger] target_error(ts, i)) is None;
    let fields = forall|i: int| 0 <= i < ts.len() ==> !is_blank_spec(#[trigger] ts[i].name)
                && !is_blank_spec(ts[i].dsn);
    let distinct = forall|i: int, j: int| 0 <= i < j < ts.len() ==> ts[i].name != ts[j].name;
    if ok {
        assert forall|i: int, j: int| 0 <= i < j < ts.len() implies ts[i].name != ts[j].name by {
            assert(target_error(ts, j) is None);
            if ts[i].name == ts[j].name {
                assert(name_taken_before(ts, j));
            }
        }
        assert forall|i: int| 0 <= i < ts.len() implies !is_blank_spec(#[trigger] ts[i].name)
            && !is_blank_spec(ts[i].dsn) by {
            assert(target_error(ts, i) is None);
        }
    }
    if fields && distinct {
        assert forall|i: int| 0 <= i < ts.len() implies (#[trigger] target_error(ts, i)) is None by {
            assert(!is_blank_spec(ts[i].name) && !is_blank_spec(ts[i].dsn));
            if name_taken_before(ts, i) {
                let j = choose|j: int| 0 <= j < i && (#[trigger] ts[j]).name == ts[i].name;
                assert(ts[j].name != ts[i].name);
            }
        }
    }
}

proof fn lemma_first_error_from(ts: Seq<InvalidationTargetView>, k: int)
    requires
        0 <= k <= ts.len(),
    ensures
        first_error_from(ts, k) is None <==> (forall|i: int| k <= i < ts.len() ==> (#[trigger] target_error(ts, i)) is None),
    decreases ts.len() - k,
{
    if k < ts.len() {
        lemma_first_error_from(ts, k + 1);
    }
}

} // verus!
