//! Databases whose authorization caches the agent flushes after a change,
//! and the decisions around flushing them.

use vstd::prelude::*;
use crate::routes::invalidation::{lemma_targets_accepted_iff, targets_error, validate_targets};
use crate::text::{concat2, concat5, is_blank, is_blank_spec};

verus! {

/// The database engine behind an invalidation target.
#[derive(Debug, Clone, Copy, PartialEq, Eq, Structural)]
pub enum InvalidationTargetKind {
    Postgres,
    Mysql,
}

/// A database whose authorization cache is flushed after each change.
#[derive(Debug)]
pub struct InvalidationTarget {
    /// Unique name for this target within the cedar-agent instance.
    pub name: String,
    pub kind: InvalidationTargetKind,
    /// DSN/connection string.
    pub dsn: String,
    /// Allow disabling targets without deleting them.
    pub enabled: bool,
}

/// What an invalidation target holds, as plain values.
pub struct InvalidationTargetView {
    pub name: Seq<char>,
    pub kind: InvalidationTargetKind,
    pub dsn: Seq<char>,
    pub enabled: bool,
}

impl View for InvalidationTarget {
    type V = InvalidationTargetView;

    open spec fn view(&self) -> InvalidationTargetView {
        InvalidationTargetView {
            name: self.name@,
            kind: self.kind,
            dsn: self.dsn@,
            enabled: self.enabled,
        }
    }
}

/// The views of a sequence of targets.
pub open spec fn targets_view(ts: Seq<InvalidationTarget>) -> Seq<InvalidationTargetView> {
    ts.map_values(|t: InvalidationTarget| t@)
}

impl Clone for InvalidationTarget {
    fn clone(&self) -> (r: Self)
        ensures
            r@ == self@,
    {
        InvalidationTarget {
            name: self.name.clone(),
            kind: self.kind,
            dsn: self.dsn.clone(),
            enabled: self.enabled,
        }
    }
}

/// The value a target's `enabled` flag takes when a description leaves it out.
pub fn default_true() -> (r: bool)
    ensures
        r,
{
    true
}

/// A copy of a list of targets.
pub fn clone_targets(ts: &Vec<InvalidationTarget>) -> (r: Vec<InvalidationTarget>)
    ensures
        targets_view(r@) == targets_view(ts@),
{
    let mut r: Vec<InvalidationTarget> = Vec::new();
    let n = ts.len();
    for i in 0..n
        invariant
            n == ts.len(),
            r.len() == i,
            forall|k: int| 0 <= k < i ==> (#[trigger] r@[k])@ == ts@[k]@,
    {
        r.push(ts[i].clone());
    }
    assert(targets_view(r@) =~= targets_view(ts@));
    r
}

/// The list a store holds after `replace_all(targets)`.
pub open spec fn after_replace_all(
    held: Seq<InvalidationTargetView>,
    targets: Seq<InvalidationTargetView>,
) -> Seq<InvalidationTargetView> {
    targets
}

/// The list that `list()` gives back from a store holding `held`.
pub open spec fn listed(held: Seq<InvalidationTargetView>) -> Seq<InvalidationTargetView> {
    held
}

/// The text of the targets setting that is to be parsed: the value, when
/// the setting is set and not blank.
pub open spec fn setting_text_spec(raw: Option<&str>) -> Option<&str> {
    match raw {
        Some(t) => if is_blank_spec(t@) {
            None
        } else {
            Some(t)
        },
        None => None,
    }
}

/// The text of the targets setting that is to be parsed, if any.
pub fn targets_setting_text(raw: Option<&str>) -> (r: Option<&str>)
    ensures
        r == setting_text_spec(raw),
{
    match raw {
        Some(t) => if is_blank(t) {
            None
        } else {
            Some(t)
        },
        None => None,
    }
}

/// Whether no two of the targets share a name.
pub open spec fn names_distinct(ts: Seq<InvalidationTargetView>) -> bool {
    forall|i: int, j: int| 0 <= i < j < ts.len() ==> ts[i].name != ts[j].name
}

/// The configured invalidation targets. A target's name is unique within
/// the agent, so no two targets held share a name.
pub struct InvalidationTargetsStore {
    targets: Vec<InvalidationTarget>,
}

impl View for InvalidationTargetsStore {
    type V = Seq<InvalidationTargetView>;

    closed spec fn view(&self) -> Seq<InvalidationTargetView> {
        targets_view(self.targets@)
    }
}

impl InvalidationTargetsStore {
    #[verifier::type_invariant]
    spec fn names_unique(self) -> bool {
        names_distinct(targets_view(self.targets@))
    }

    /// A store with no targets.
    pub fn new() -> (r: Self)
        ensures
            r@ == Seq::<InvalidationTargetView>::empty(),
    {
        let r = InvalidationTargetsStore { targets: Vec::new() };
        assert(r@ =~= Seq::<InvalidationTargetView>::empty());
        r
    }

    /// A store holding the given targets.
    fn from_targets(targets: Vec<InvalidationTarget>) -> (r: Self)
        requires
            names_distinct(targets_view(targets@)),
        ensures
            r@ == targets_view(targets@),
    {
        InvalidationTargetsStore { targets }
    }

    /// A store holding the targets that the setting `raw` lists: none when
    /// the setting is unset or blank (see `targets_setting_text`), none when
    /// its text could not be parsed (`parsed` is `None`), none when the
    /// parsed list fails `validate_targets` (a blank name or DSN, or a name
    /// listed twice), and otherwise the parsed targets, in their order. The
    /// store never holds two targets of one name.
    pub fn new_from_env(raw: Option<&str>, parsed: Option<Vec<InvalidationTarget>>) -> (r: Self)
        ensures
            r@ == match setting_text_spec(raw) {
                None => Seq::<InvalidationTargetView>::empty(),
                Some(_) => match parsed {
                    Some(ts) => if targets_error(targets_view(ts@)) is None {
                        targets_view(ts@)
                    } else {
                        Seq::<InvalidationTargetView>::empty()
                    },
                    None => Seq::<InvalidationTargetView>::empty(),
                },
            },
            names_distinct(r@),
    {
        match targets_setting_text(raw) {
            None => InvalidationTargetsStore::new(),
            Some(_) => match parsed {
                Some(ts) => match validate_targets(&ts) {
                    Ok(()) => {
                        proof {
                            lemma_targets_accepted_iff(targets_view(ts@));
                        }
                        InvalidationTargetsStore::from_targets(ts)
                    },
                    Err(_) => InvalidationTargetsStore::new(),
                },
                None => InvalidationTargetsStore::new(),
            },
        }
    }

    /// A copy of the targets held.
    pub fn list(&self) -> (r: Vec<InvalidationTarget>)
        ensures
            targets_view(r@) == listed(self@),
            targets_view(r@) == self@,
            names_distinct(targets_view(r@)),
    {
        proof {
            use_type_invariant(self);
        }
        clone_targets(&self.targets)
    }

    /// Replaces all targets held with `targets`, whose names are distinct.
    pub fn replace_all(&mut self, targets: Vec<InvalidationTarget>)
        requires
            names_distinct(targets_view(targets@)),
        ensures
            final(self)@ == after_replace_all(old(self)@, targets_view(targets@)),
            final(self)@ == targets_view(targets@),
    {
        self.targets = targets;
    }
}

/// A store gives back what was last written to it: after
/// `replace_all(targets)`, `list()` yields `targets`.
pub proof fn lemma_list_after_replace_all(
    held: Seq<InvalidationTargetView>,
    targets: Seq<InvalidationTargetView>,
)
    ensures
        listed(after_replace_all(held, targets)) == targets,
{
}

/// Listing a store gives back exactly the targets it holds, each field
/// (the enabled flag included) as it is held.
pub proof fn lemma_list_gives_back_held(held: Seq<InvalidationTargetView>)
    ensures
        listed(held).len() == held.len(),
        forall|i: int| 0 <= i < held.len() ==> (#[trigger] listed(held)[i]) == held[i],
{
}

/// After `replace_all(targets)` the store holds exactly `targets`, in
/// their order and unchanged, whatever it held before.
pub proof fn lemma_replace_all_holds_targets(
    held: Seq<InvalidationTargetView>,
    targets: Seq<InvalidationTargetView>,
)
    ensures
        after_replace_all(held, targets).len() == targets.len(),
        forall|i: int| 0 <= i < targets.len() ==> (#[trigger] after_replace_all(held, targets)[i]) == targets[i],
{
}

/// The targets that are enabled, in their order.
pub open spec fn enabled_spec(ts: Seq<InvalidationTargetView>) -> Seq<InvalidationTargetView> {
    ts.filter(|t: InvalidationTargetView| t.enabled)
}

/// The enabled targets among `targets`, in their order: only these are
/// invalidated.
pub fn enabled_targets(targets: Vec<InvalidationTarget>) -> (r: Vec<InvalidationTarget>)
    ensures
        targets_view(r@) == enabled_spec(targets_view(targets@)),
{
    let ghost tv = targets_view(targets@);
    let mut r: Vec<InvalidationTarget> = Vec::new();
    let mut rest = targets;
    let ghost total = rest.len();
    while rest.len() > 0
        invariant
            total == tv.len(),
            rest.len() <= total,
            forall|k: int| 0 <= k < rest.len() ==> (#[trigger] rest@[k])@ == tv[total - rest.len() + k],
            targets_view(r@) == enabled_spec(tv.take(total - rest.len())),
        decreases rest.len(),
    {
        let ghost done = total - rest.len();
        assert(rest@[0]@ == tv[done]);
        let t = rest.remove(0);
        proof {
            assert(tv.take(done + 1).drop_last() =~= tv.take(done));
            assert(tv.take(done + 1).last() == tv[done]);
            reveal(Seq::filter);
        }
        if t.enabled {
            r.push(t);
            assert(targets_view(r@) =~= targets_view(r@.drop_last()).push(t@));
        }
    }
    assert(tv.take(total as int) =~= tv);
    r
}

/// The parts joined with `sep` between consecutive ones.
pub open spec fn join_spec(parts: Seq<Seq<char>>, sep: Seq<char>) -> Seq<char>
    decreases parts.len(),
{
    if parts.len() == 0 {
        Seq::empty()
    } else if parts.len() == 1 {
        parts[0]
    } else {
        join_spec(parts.drop_last(), sep) + sep + parts.last()
    }
}

/// The views of a sequence of strings.
pub open spec fn strings_view(ss: Seq<String>) -> Seq<Seq<char>> {
    ss.map_values(|s: String| s@)
}

/// The outcome of invalidating every enabled target, from the errors the
/// targets reported: success when none did, else all the errors joined
/// with `"; "`.
pub fn combine_invalidation_errors(errors: &Vec<String>) -> (r: Result<(), String>)
    ensures
        r matches Ok(_) <==> errors.len() == 0,
        r matches Err(e) ==> e@ == join_spec(strings_view(errors@), "; "@),
{
    if errors.len() == 0 {
        return Ok(());
    }
    let ghost ev = strings_view(errors@);
    let mut joined: String = errors[0].clone();
    let n = errors.len();
    assert(ev.take(1).drop_last().len() == 0);
    for i in 1..n
        invariant
            n == errors.len(),
            ev == strings_view(errors@),
            joined@ == join_spec(ev.take(i as int), "; "@),
    {
        joined.append("; ");
        joined.append(errors[i].as_str());
        assert(ev.take(i + 1).drop_last() =~= ev.take(i as int));
    }
    assert(ev.take(n as int) =~= ev);
    Err(joined)
}

impl InvalidationTargetKind {
    /// The word that names the engine in error messages.
    pub open spec fn label_spec(&self) -> Seq<char> {
        match self {
            InvalidationTargetKind::Postgres => "postgres"@,
            InvalidationTargetKind::Mysql => "mysql"@,
        }
    }

    /// The word that names the engine in error messages.
    pub fn label(&self) -> (r: &'static str)
        ensures
            r@ == self.label_spec(),
    {
        match self {
            InvalidationTargetKind::Postgres => "postgres",
            InvalidationTargetKind::Mysql => "mysql",
        }
    }

    /// The statement that flushes the engine's authorization cache.
    pub fn cache_reset_statement(&self) -> (r: &'static str)
        ensures
            r@ == match self {
                InvalidationTargetKind::Postgres => "SELECT pg_authorization_cache_reset();"@,
                InvalidationTargetKind::Mysql => "SET GLOBAL cedar_authorization_cache_flush = 1;"@,
            },
    {
        match self {
            InvalidationTargetKind::Postgres => "SELECT pg_authorization_cache_reset();",
            InvalidationTargetKind::Mysql => "SET GLOBAL cedar_authorization_cache_flush = 1;",
        }
    }
}

/// The message reported when the task that flushed a target did not
/// complete; `detail` is the runtime's message.
pub fn join_failure_message(detail: &str) -> (r: String)
    ensures
        r@ == "invalidation task join error: "@ + detail@,
{
    concat2("invalidation task join error: ", detail)
}

/// The next thing to do when flushing one target.
#[derive(Debug, Clone, Copy, PartialEq, Eq, Structural)]
pub enum FlushStep {
    /// Open a connection pool (one connection) to the target's DSN.
    Connect,
    /// Keep the new pool under the target's DSN for later flushes.
    RememberPool,
    /// Run the target's cache reset statement, within the time limit.
    Execute,
    /// Report the outcome.
    Finish,
}

/// How running the cache reset statement ended.
pub enum ExecuteOutcome {
    /// The statement ran.
    Done,
    /// The time limit passed first.
    TimedOut,
    /// The statement failed; the driver's message.
    Failed(String),
}

/// The flush of one target.
pub struct TargetFlush {
    name: String,
    kind: InvalidationTargetKind,
    step: FlushStep,
    outcome: Result<(), String>,
}

/// The flush of one target, as plain values.
pub struct TargetFlushView {
    pub name: Seq<char>,
    pub kind: InvalidationTargetKind,
    pub step: FlushStep,
    /// The outcome, once the step is `Finish`.
    pub outcome: Result<(), Seq<char>>,
}

impl View for TargetFlush {
    type V = TargetFlushView;

    closed spec fn view(&self) -> TargetFlushView {
        TargetFlushView {
            name: self.name@,
            kind: self.kind,
            step: self.step,
            outcome: match self.outcome {
                Ok(_) => Ok(()),
                Err(e) => Err(e@),
            },
        }
    }
}

/// The state in which the flush of `target` starts: with a pool already
/// kept for its DSN it goes straight to the statement.
pub open spec fn flush_start(target: InvalidationTargetView, pool_known: bool) -> TargetFlushView {
    TargetFlushView {
        name: target.name,
        kind: target.kind,
        step: if pool_known {
            FlushStep::Execute
        } else {
            FlushStep::Connect
        },
        outcome: Ok(()),
    }
}

/// The flush after the connection attempt; a failed one ends it with the
/// connect message.
pub open spec fn flush_after_connect(v: TargetFlushView, r: Result<(), Seq<char>>) -> TargetFlushView {
    if v.step == FlushStep::Connect {
        match r {
            Ok(_) => TargetFlushView { step: FlushStep::RememberPool, ..v },
            Err(e) => TargetFlushView {
                step: FlushStep::Finish,
                outcome: Err("target '"@ + v.name + "' "@ + v.kind.label_spec() + " connect failed: "@ + e),
                ..v
            },
        }
    } else {
        v
    }
}

/// The flush after the new pool was kept.
pub open spec fn flush_after_remember(v: TargetFlushView) -> TargetFlushView {
    if v.step == FlushStep::RememberPool {
        TargetFlushView { step: FlushStep::Execute, ..v }
    } else {
        v
    }
}

/// The flush after the statement ran, timed out or failed.
pub open spec fn flush_after_execute(v: TargetFlushView, r: ExecuteOutcome) -> TargetFlushView {
    if v.step == FlushStep::Execute {
        TargetFlushView {
            step: FlushStep::Finish,
            outcome: match r {
                ExecuteOutcome::Done => Ok(()),
                ExecuteOutcome::TimedOut => Err(
                    "target '"@ + v.name + "' "@ + v.kind.label_spec() + " invalidate timed out"@,
                ),
                ExecuteOutcome::Failed(e) => Err(
                    "target '"@ + v.name + "' "@ + v.kind.label_spec() + " invalidate failed: "@ + e@,
                ),
            },
            ..v
        }
    } else {
        v
    }
}

impl TargetFlush {
    /// Starts the flush of `target`; `pool_known` tells whether a pool is
    /// already kept for its DSN.
    pub fn new(target: &InvalidationTarget, pool_known: bool) -> (r: Self)
        ensures
            r@ == flush_start(target@, pool_known),
    {
        TargetFlush {
            name: target.name.clone(),
            kind: target.kind,
            step: if pool_known {
                FlushStep::Execute
            } else {
                FlushStep::Connect
            },
            outcome: Ok(()),
        }
    }

    /// What to do next.
    pub fn next_step(&self) -> (r: FlushStep)
        ensures
            r == self@.step,
    {
        self.step
    }

    /// The statement that flushes the target's cache.
    pub fn statement(&self) -> (r: &'static str)
        ensures
            r@ == match self@.kind {
                InvalidationTargetKind::Postgres => "SELECT pg_authorization_cache_reset();"@,
                InvalidationTargetKind::Mysql => "SET GLOBAL cedar_authorization_cache_flush = 1;"@,
            },
    {
        self.kind.cache_reset_statement()
    }

    /// Reports the outcome of the connection attempt.
    pub fn connect_done(&mut self, r: Result<(), String>)
        ensures
            final(self)@ == flush_after_connect(
                old(self)@,
                match r {
                    Ok(_) => Ok(()),
                    Err(e) => Err(e@),
                },
            ),
    {
        if let FlushStep::Connect = self.step {
            match r {
                Ok(()) => {
                    self.step = FlushStep::RememberPool;
                },
                Err(e) => {
                    let head = concat5("target '", self.name.as_str(), "' ", self.kind.label(), " connect failed: ");
                    self.outcome = Err(concat2(head.as_str(), e.as_str()));
                    self.step = FlushStep::Finish;
                },
            }
        }
    }

    /// Reports that the new pool is kept.
    pub fn pool_remembered(&mut self)
        ensures
            final(self)@ == flush_after_remember(old(self)@),
    {
        if let FlushStep::RememberPool = self.step {
            self.step = FlushStep::Execute;
        }
    }

    /// Reports how running the statement ended.
    pub fn execute_done(&mut self, r: ExecuteOutcome)
        ensures
            final(self)@ == flush_after_execute(old(self)@, r),
    {
        if let FlushStep::Execute = self.step {
            let label = self.kind.label();
            self.outcome = match r {
                ExecuteOutcome::Done => Ok(()),
                ExecuteOutcome::TimedOut => Err(
                    concat5("target '", self.name.as_str(), "' ", label, " invalidate timed out"),
                ),
                ExecuteOutcome::Failed(e) => {
                    let head = concat5("target '", self.name.as_str(), "' ", label, " invalidate failed: ");
                    Err(concat2(head.as_str(), e.as_str()))
                },
            };
            self.step = FlushStep::Finish;
        }
    }

    /// The outcome of the flush, once it is finished.
    pub fn finished(self) -> (r: Option<Result<(), String>>)
        ensures
            r is Some <==> self@.step == FlushStep::Finish,
            r matches Some(Ok(_)) ==> self@.outcome is Ok,
            r matches Some(Err(e)) ==> self@.outcome == Err::<(), Seq<char>>(e@),
    {
        match self.step {
            FlushStep::Finish => Some(self.outcome),
            _ => None,
        }
    }
}

/// The course of a flush: without a kept pool it connects first; a failed
/// connection ends it with the connect message and no pool is kept; after
/// a successful one the pool is kept and the statement runs; the flush
/// succeeds exactly when the statement runs in time, and otherwise
/// reports the timeout or the statement's failure.
pub proof fn lemma_flush_course(target: InvalidationTargetView, e: Seq<char>, r: ExecuteOutcome)
    ensures
        ({
            let failed = flush_after_connect(flush_start(target, false), Err(e));
            &&& failed.step == FlushStep::Finish
            &&& failed.outcome == Err::<(), Seq<char>>(
                "target '"@ + target.name + "' "@ + target.kind.label_spec() + " connect failed: "@ + e,
            )
        }),
        flush_after_connect(flush_start(target, false), Ok(())).step == FlushStep::RememberPool,
        flush_after_remember(flush_after_connect(flush_start(target, false), Ok(()))) == flush_start(target, true),
        ({
            let done = flush_after_execute(flush_start(target, true), r);
            &&& done.step == FlushStep::Finish
            &&& (done.outcome is Ok <==> r is Done)
        }),
{
}

} // verus!
