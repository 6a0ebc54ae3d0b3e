//! The whole configuration and its defaults.

use vstd::prelude::*;

use crate::config::cors::CorsConfig;
use crate::config::forwarded::ForwardedConfig;
use crate::config::limits::LimitsConfig;
use crate::config::observability::ObservabilityConfig;
use crate::config::rate_limit::RateLimitConfig;
use crate::config::security::SecurityConfig;
use crate::config::server::ServerConfig;
use crate::config::ssrf::SsrfConfig;
use crate::config::upstream::UpstreamConfig;

verus! {

/// The whole configuration.
#[derive(Clone, Debug)]
pub struct Config {
    /// The inbound listener.
    pub server: ServerConfig,
    /// Size and time limits.
    pub limits: LimitsConfig,
    /// CORS policy.
    pub cors: CorsConfig,
    /// Inbound request guards.
    pub security: SecurityConfig,
    /// SSRF protection.
    pub ssrf: SsrfConfig,
    /// Forwarding headers.
    pub forwarded: ForwardedConfig,
    /// Rate limits.
    pub rate_limit: RateLimitConfig,
    /// The upstream client.
    pub upstream: UpstreamConfig,
    /// Logs, metrics and traces.
    pub observability: ObservabilityConfig,
}

/// The value of switches that are on unless they are switched off.
pub fn default_true() -> (r: bool)
    ensures
        r,
{
    true
}

impl Config {
    /// Every part has its defaults.
    pub open spec fn is_default(self) -> bool {
        &&& self.server.is_default()
        &&& self.limits.is_default()
        &&& self.cors.is_default()
        &&& self.security.is_default()
        &&& self.ssrf.is_default()
        &&& self.forwarded == (ForwardedConfig {
            inject: true,
            trust_inbound_xff: false,
            inject_request_id: true,
        })
        &&& self.rate_limit.is_default()
        &&& self.upstream.is_default()
        &&& self.observability.is_default()
    }

    /// The configuration out of the box, on which overrides are laid.
    pub fn defaults() -> (r: Config)
        ensures
            r.is_default(),
            r.ssrf.wf(),
    {
        Config {
            server: ServerConfig::default(),
            limits: LimitsConfig::default(),
            cors: CorsConfig::default(),
            security: SecurityConfig::default(),
            ssrf: SsrfConfig::default(),
            forwarded: ForwardedConfig {
                inject: default_true(),
                trust_inbound_xff: false,
                inject_request_id: default_true(),
            },
            rate_limit: RateLimitConfig::default(),
            upstream: UpstreamConfig::default(),
            observability: ObservabilityConfig::default(),
        }
    }
}

impl Default for Config {
    fn default() -> (r: Config)
        ensures
            r.is_default(),
            r.ssrf.wf(),
    {
        Config::defaults()
    }
}

} // verus!
