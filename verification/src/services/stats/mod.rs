//! Statistics about authorization decisions.

use vstd::prelude::*;

pub mod memory;

verus! {

/// Statistics tracked by the Cedar agent
#[derive(Debug, Clone, Copy)]
pub struct Stats {
    /// Total number of authorization requests processed
    pub total_requests: u64,
    /// Number of requests resulting in "Allow" decision
    pub allows: u64,
    /// Number of requests resulting in "Deny" decision
    pub denies: u64,
}

/// A counter after one more event: it wraps to zero past `u64::MAX`,
/// as an atomic `fetch_add` does.
pub open spec fn bump(x: u64) -> u64 {
    if x == u64::MAX {
        0
    } else {
        (x + 1) as u64
    }
}

/// All counters at zero.
pub open spec fn zero_stats() -> Stats {
    Stats { total_requests: 0, allows: 0, denies: 0 }
}

/// An event that changes the statistics.
pub enum StatsEvent {
    /// An authorization request was processed.
    Request,
    /// A request was allowed.
    Allow,
    /// A request was denied.
    Deny,
    /// All counters were reset.
    Reset,
}

/// The statistics after one event.
pub open spec fn apply_event(s: Stats, e: StatsEvent) -> Stats {
    match e {
        StatsEvent::Request => Stats { total_requests: bump(s.total_requests), ..s },
        StatsEvent::Allow => Stats { allows: bump(s.allows), ..s },
        StatsEvent::Deny => Stats { denies: bump(s.denies), ..s },
        StatsEvent::Reset => zero_stats(),
    }
}

/// The statistics after a sequence of events, in order.
pub open spec fn replay(s: Stats, events: Seq<StatsEvent>) -> Stats
    decreases events.len(),
{
    if events.len() == 0 {
        s
    } else {
        apply_event(replay(s, events.drop_last()), events.last())
    }
}

/// How many events of the kind of `e` occur in `events`.
pub open spec fn count_events(events: Seq<StatsEvent>, e: StatsEvent) -> nat
    decreases events.len(),
{
    if events.len() == 0 {
        0
    } else {
        count_events(events.drop_last(), e) + if events.last() == e { 1nat } else { 0nat }
    }
}

impl Default for Stats {
    fn default() -> (r: Stats)
        ensures
            r == zero_stats(),
    {
        Stats { total_requests: 0, allows: 0, denies: 0 }
    }
}

/// Trait for tracking Cedar agent statistics
pub trait StatsStore {
    /// The counters the store holds.
    spec fn counters(&self) -> Stats;

    /// Get current statistics
    fn get_stats(&self) -> (r: Stats)
        ensures
            r == self.counters(),
    ;

    /// Increment the total authorization request counter
    fn increment_auth_request(&mut self)
        ensures
            final(self).counters() == apply_event(old(self).counters(), StatsEvent::Request),
    ;

    /// Increment the allow decision counter
    fn increment_allow(&mut self)
        ensures
            final(self).counters() == apply_event(old(self).counters(), StatsEvent::Allow),
    ;

    /// Increment the deny decision counter
    fn increment_deny(&mut self)
        ensures
            final(self).counters() == apply_event(old(self).counters(), StatsEvent::Deny),
    ;

    /// Reset all statistics to zero
    fn reset(&mut self)
        ensures
            final(self).counters() == apply_event(old(self).counters(), StatsEvent::Reset),
    ;
}

/// Each counter counts exactly the events of its kind: starting from zero,
/// as long as no counter passes `u64::MAX` and nothing resets the store,
/// the requests, allows and denies are the numbers of such events.
pub proof fn lemma_counters_count_events(events: Seq<StatsEvent>)
    requires
        count_events(events, StatsEvent::Reset) == 0,
        count_events(events, StatsEvent::Request) <= u64::MAX,
        count_events(events, StatsEvent::Allow) <= u64::MAX,
        count_events(events, StatsEvent::Deny) <= u64::MAX,
    ensures
        replay(zero_stats(), events).total_requests == count_events(events, StatsEvent::Request),
        replay(zero_stats(), events).allows == count_events(events, StatsEvent::Allow),
        replay(zero_stats(), events).denies == count_events(events, StatsEvent::Deny),
    decreases events.len(),
{
    if events.len() > 0 {
        lemma_counters_count_events(events.drop_last());
    }
}

/// A reset clears everything that came before it: the counters after
/// `before`, a reset and `after` are those after `after` alone, from zero.
pub proof fn lemma_reset_forgets_history(s: Stats, before: Seq<StatsEvent>, after: Seq<StatsEvent>)
    ensures
        replay(s, before.push(StatsEvent::Reset) + after) == replay(zero_stats(), after),
    decreases after.len(),
{
    let pre = before.push(StatsEvent::Reset);
    if after.len() == 0 {
        assert(pre + after =~= pre);
        assert(pre.drop_last() =~= before);
    } else {
        lemma_reset_forgets_history(s, before, after.drop_last());
        assert((pre + after).drop_last() =~= pre + after.drop_last());
        assert((pre + after).last() == after.last());
    }
}

/// How many events of the kind of `e` occur in `events` after the last
/// reset (all of them when there is none).
pub open spec fn count_since_reset(events: Seq<StatsEvent>, e: StatsEvent) -> nat
    decreases events.len(),
{
    if events.len() == 0 {
        0
    } else if events.last() == StatsEvent::Reset {
        0
    } else {
        count_since_reset(events.drop_last(), e) + if events.last() == e { 1nat } else { 0nat }
    }
}

/// A number of events counted the way a `u64` counter holds it.
pub open spec fn wrapped(n: nat) -> u64 {
    (n % 0x1_0000_0000_0000_0000) as u64
}

proof fn lemma_bump_wrapped(n: nat)
    ensures
        bump(wrapped(n)) == wrapped(n + 1),
{
    let m: int = 0x1_0000_0000_0000_0000;
    vstd::arithmetic::div_mod::lemma_fundamental_div_mod(n as int, m);
    let q = (n as int) / m;
    let r = (n as int) % m;
    assert(0 <= r < m);
    if r == m - 1 {
        assert(n + 1 == (q + 1) * m + 0) by (nonlinear_arith)
            requires
                n == m * q + r,
                r == m - 1,
        ;
        vstd::arithmetic::div_mod::lemma_fundamental_div_mod_converse_mod((n + 1) as int, m, q + 1, 0);
    } else {
        assert(n + 1 == q * m + (r + 1)) by (nonlinear_arith)
            requires
                n == m * q + r,
        ;
        vstd::arithmetic::div_mod::lemma_fundamental_div_mod_converse_mod((n + 1) as int, m, q, r + 1);
    }
}

/// The counters over any history of calls from a new store: each counter
/// holds the number of its events after the last reset, modulo 2^64.
pub proof fn lemma_counters_over_any_history(events: Seq<StatsEvent>)
    ensures
        replay(zero_stats(), events) == (Stats {
            total_requests: wrapped(count_since_reset(events, StatsEvent::Request)),
            allows: wrapped(count_since_reset(events, StatsEvent::Allow)),
            denies: wrapped(count_since_reset(events, StatsEvent::Deny)),
        }),
    decreases events.len(),
{
    if events.len() > 0 {
        let pre = events.drop_last();
        lemma_counters_over_any_history(pre);
        lemma_bump_wrapped(count_since_reset(pre, StatsEvent::Request));
        lemma_bump_wrapped(count_since_reset(pre, StatsEvent::Allow));
        lemma_bump_wrapped(count_since_reset(pre, StatsEvent::Deny));
    }
}

} // verus!
