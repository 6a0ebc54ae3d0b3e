//! The upstream client.

use vstd::prelude::*;

use crate::time::Duration;

verus! {

/// Tuning of the upstream client.
#[derive(Clone, Debug)]
pub struct UpstreamConfig {
    /// Idle connections kept for each host.
    pub pool_max_idle_per_host: usize,
    /// How long an idle connection is kept.
    pub pool_idle_timeout: Duration,
    /// `User-Agent` of requests that have none.
    pub user_agent: String,
}

impl UpstreamConfig {
    /// The defaults.
    pub open spec fn is_default(self) -> bool {
        &&& self.pool_max_idle_per_host == 32
        &&& self.pool_idle_timeout.spec_nanos() == 90 * 1_000_000_000
        &&& self.user_agent@ == "corx/0.2.0"@
    }
}

impl Default for UpstreamConfig {
    fn default() -> (r: UpstreamConfig)
        ensures
            r.is_default(),
    {
        UpstreamConfig {
            pool_max_idle_per_host: 32,
            pool_idle_timeout: Duration::from_secs(90),
            user_agent: "corx/0.2.0".to_owned(),
        }
    }
}

} // verus!
