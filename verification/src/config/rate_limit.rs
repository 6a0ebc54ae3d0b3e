//! Rate limits.

use vstd::prelude::*;

use crate::net::IpNet;

verus! {

/// Rate limits in four independent dimensions. A dimension whose `rps` is `0`
/// is off.
#[derive(Clone, Debug)]
pub struct RateLimitConfig {
    /// Master switch.
    pub enabled: bool,
    /// Limits of each origin.
    pub origin: OriginLimitConfig,
    /// Limits of each client address.
    pub ip: IpLimitConfig,
    /// Limits of each target host.
    pub target_host: HostLimitConfig,
    /// Limits of the process.
    pub global: GlobalLimitConfig,
}

/// Limits of each origin.
#[derive(Clone, Debug)]
pub struct OriginLimitConfig {
    /// Requests per second.
    pub rps: u32,
    /// Burst budget.
    pub burst: u32,
    /// Patterns of origins without a limit.
    pub unlimited_patterns: Vec<String>,
}

/// Limits of each client address.
#[derive(Clone, Debug)]
pub struct IpLimitConfig {
    /// Requests per second.
    pub rps: u32,
    /// Burst budget.
    pub burst: u32,
    /// Ranges of addresses without a limit.
    pub trusted_cidrs: Vec<IpNet>,
}

/// Limits of each target host.
#[derive(Clone, Copy, Debug, PartialEq, Eq, Structural)]
pub struct HostLimitConfig {
    /// Requests per second.
    pub rps: u32,
    /// Burst budget.
    pub burst: u32,
}

/// Limits of the process.
#[derive(Clone, Copy, Debug, PartialEq, Eq, Structural)]
pub struct GlobalLimitConfig {
    /// Requests per second.
    pub rps: u32,
    /// Burst budget.
    pub burst: u32,
    /// Requests under way at once; `0` means no limit.
    pub inflight_max: u32,
}

impl Default for OriginLimitConfig {
    fn default() -> (r: OriginLimitConfig)
        ensures
            r.rps == 0,
            r.burst == 0,
            r.unlimited_patterns@.len() == 0,
    {
        OriginLimitConfig { rps: 0, burst: 0, unlimited_patterns: Vec::new() }
    }
}

impl Default for IpLimitConfig {
    fn default() -> (r: IpLimitConfig)
        ensures
            r.rps == 0,
            r.burst == 0,
            r.trusted_cidrs@.len() == 0,
    {
        IpLimitConfig { rps: 0, burst: 0, trusted_cidrs: Vec::new() }
    }
}

impl Default for HostLimitConfig {
    fn default() -> (r: HostLimitConfig)
        ensures
            r == (HostLimitConfig { rps: 0, burst: 0 }),
    {
        HostLimitConfig { rps: 0, burst: 0 }
    }
}

impl Default for GlobalLimitConfig {
    fn default() -> (r: GlobalLimitConfig)
        ensures
            r == (GlobalLimitConfig { rps: 0, burst: 0, inflight_max: 0 }),
    {
        GlobalLimitConfig { rps: 0, burst: 0, inflight_max: 0 }
    }
}

impl RateLimitConfig {
    /// The defaults: off, with budgets ready to be switched on.
    pub open spec fn is_default(self) -> bool {
        &&& !self.enabled
        &&& self.origin.rps == 50
        &&& self.origin.burst == 100
        &&& self.origin.unlimited_patterns@.len() == 0
        &&& self.ip.rps == 30
        &&& self.ip.burst == 60
        &&& self.ip.trusted_cidrs@.len() == 0
        &&& self.target_host == (HostLimitConfig { rps: 100, burst: 200 })
        &&& self.global == (GlobalLimitConfig { rps: 5_000, burst: 10_000, inflight_max: 1_000 })
    }
}

impl Default for RateLimitConfig {
    fn default() -> (r: RateLimitConfig)
        ensures
            r.is_default(),
    {
        RateLimitConfig {
            enabled: false,
            origin: OriginLimitConfig { rps: 50, burst: 100, unlimited_patterns: Vec::new() },
            ip: IpLimitConfig { rps: 30, burst: 60, trusted_cidrs: Vec::new() },
            target_host: HostLimitConfig { rps: 100, burst: 200 },
            global: GlobalLimitConfig { rps: 5_000, burst: 10_000, inflight_max: 1_000 },
        }
    }
}

} // verus!
