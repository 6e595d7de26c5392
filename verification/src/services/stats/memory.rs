//! Statistics held in memory.

use vstd::prelude::*;
use super::{Stats, StatsStore, StatsEvent, apply_event, bump, zero_stats};

verus! {

/// In-memory implementation of `StatsStore`: three counters.
pub struct MemoryStatsStore {
    total_requests: u64,
    allows: u64,
    denies: u64,
}

fn bump_counter(x: u64) -> (r: u64)
    ensures
        r == bump(x),
{
    x.wrapping_add(1)
}

impl MemoryStatsStore {
    /// Create a new MemoryStatsStore with all counters initialized to zero
    pub fn new() -> (r: Self)
        ensures
            r.counters() == zero_stats(),
    {
        MemoryStatsStore { total_requests: 0, allows: 0, denies: 0 }
    }
}

impl Default for MemoryStatsStore {
    fn default() -> (r: Self)
        ensures
            r.counters() == zero_stats(),
    {
        Self::new()
    }
}

impl StatsStore for MemoryStatsStore {
    closed spec fn counters(&self) -> Stats {
        Stats { total_requests: self.total_requests, allows: self.allows, denies: self.denies }
    }

    fn get_stats(&self) -> (r: Stats) {
        Stats { total_requests: self.total_requests, allows: self.allows, denies: self.denies }
    }

    fn increment_auth_request(&mut self) {
        self.total_requests = bump_counter(self.total_requests);
    }

    fn increment_allow(&mut self) {
        self.allows = bump_counter(self.allows);
    }

    fn increment_deny(&mut self) {
        self.denies = bump_counter(self.denies);
    }

    fn reset(&mut self) {
        self.total_requests = 0;
        self.allows = 0;
        self.denies = 0;
    }
}

} // verus!
