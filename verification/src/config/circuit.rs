//! Circuit breaker configuration.

use vstd::prelude::*;

use crate::time::Duration;

verus! {

/// Circuit breaker of each upstream host. Its state is local to the process.
#[derive(Clone, Copy, Debug)]
pub struct CircuitBreakerConfig {
    /// Master switch.
    pub enabled: bool,
    /// Failures in the rolling window that open the circuit.
    pub failure_threshold: u32,
    /// Rolling window in which failures count.
    pub window: Duration,
    /// How long the circuit stays open before it is probed.
    pub open_duration: Duration,
    /// How many probes may be under way for a host.
    pub half_open_max: u32,
    /// Whether upstream 5xx responses count as failures.
    pub count_5xx: bool,
}

/// Failures that open the circuit by default.
pub fn default_failure_threshold() -> (r: u32)
    ensures
        r == 5,
{
    5
}

/// Probes under way by default.
pub fn default_half_open_max() -> (r: u32)
    ensures
        r == 1,
{
    1
}

/// Rolling window by default.
pub fn default_window() -> (r: Duration)
    ensures
        r.spec_nanos() == 30 * 1_000_000_000,
{
    Duration::from_secs(30)
}

/// Open time by default.
pub fn default_open_duration() -> (r: Duration)
    ensures
        r.spec_nanos() == 30 * 1_000_000_000,
{
    Duration::from_secs(30)
}

impl Default for CircuitBreakerConfig {
    fn default() -> (r: CircuitBreakerConfig)
        ensures
            r.enabled,
            r.failure_threshold == 5,
            r.window.spec_nanos() == 30 * 1_000_000_000,
            r.open_duration.spec_nanos() == 30 * 1_000_000_000,
            r.half_open_max == 1,
            r.count_5xx,
    {
        CircuitBreakerConfig {
            enabled: true,
            failure_threshold: default_failure_threshold(),
            window: default_window(),
            open_duration: default_open_duration(),
            half_open_max: default_half_open_max(),
            count_5xx: true,
        }
    }
}

} // verus!
