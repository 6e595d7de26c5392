//! Response body of the statistics routes.

use vstd::prelude::*;
use vstd::std_specs::convert::FromSpecImpl;
use crate::services::stats::Stats;

verus! {

/// Statistics response for Cedar agent
#[derive(Debug, Clone, Copy)]
pub struct StatsResponse {
    /// Total number of authorization requests processed
    pub total_requests: u64,
    /// Number of requests resulting in "Allow" decision
    pub allows: u64,
    /// Number of requests resulting in "Deny" decision
    pub denies: u64,
}

impl From<Stats> for StatsResponse {
    fn from(stats: Stats) -> (r: Self)
        ensures
            r.total_requests == stats.total_requests,
            r.allows == stats.allows,
            r.denies == stats.denies,
    {
        StatsResponse {
            total_requests: stats.total_requests,
            allows: stats.allows,
            denies: stats.denies,
        }
    }
}

impl FromSpecImpl<Stats> for StatsResponse {
    open spec fn obeys_from_spec() -> bool {
        true
    }

    open spec fn from_spec(stats: Stats) -> StatsResponse {
        StatsResponse {
            total_requests: stats.total_requests,
            allows: stats.allows,
            denies: stats.denies,
        }
    }
}

/// The response to a statistics request carries each counter unchanged:
/// the total, the allows and the denies of the statistics it is made from.
pub proof fn lemma_response_carries_counters(stats: Stats)
    ensures
        ({
            let r = <StatsResponse as vstd::std_specs::convert::FromSpec<Stats>>::from_spec(stats);
            &&& r.total_requests == stats.total_requests
            &&& r.allows == stats.allows
            &&& r.denies == stats.denies
        }),
{
}

} // verus!
