//! Configuration of the smaller engine.

use vstd::prelude::*;

use crate::config::cors::CorsPolicyKind;
use crate::config::observability::LogFormat;
use crate::config::server::ServerConfig;
use crate::config::upstream::UpstreamConfig;
use crate::net::IpNet;
use crate::text::texts;
use crate::time::Duration;

verus! {

/// Size and time limits.
#[derive(Clone, Copy, Debug)]
pub struct LimitsConfig {
    /// Largest inbound request body in bytes.
    pub max_request_body_bytes: u64,
    /// Largest inbound request head in bytes.
    pub max_request_header_bytes: u32,
    /// How long a proxied request may take in all.
    pub request_timeout: Duration,
    /// How long connecting to the upstream may take.
    pub connect_timeout: Duration,
    /// How many redirects are followed for a request.
    pub max_redirects: u8,
}

/// CORS policy.
#[derive(Clone, Debug)]
pub struct CorsConfig {
    /// Which policy to apply.
    pub policy: CorsPolicyKind,
    /// Origins of the reflecting policy.
    pub allowlist: Vec<String>,
    /// Origins of the explicit policy.
    pub explicit: Vec<String>,
    /// How long a preflight response may be cached.
    pub max_age: Duration,
    /// Whether to allow credentials.
    pub allow_credentials: bool,
}

/// Inbound guards.
#[derive(Clone, Debug)]
pub struct SecurityConfig {
    /// A request must have one of these headers.
    pub require_header: Vec<String>,
    /// Methods that are blocked.
    pub block_methods: Vec<String>,
    /// Request headers stripped before forwarding.
    pub remove_request_headers: Vec<String>,
    /// Response headers stripped before they reach the client.
    pub remove_response_headers: Vec<String>,
    /// Origins that are denied.
    pub origin_blacklist: Vec<String>,
    /// Where not empty, the only origins that are let in.
    pub origin_whitelist: Vec<String>,
}

/// SSRF protection.
#[derive(Clone, Debug)]
pub struct SsrfConfig {
    /// Master switch.
    pub enabled: bool,
    /// Ranges to block on top of the built-in ones.
    pub extra_blocked_cidrs: Vec<IpNet>,
    /// Allow name resolution to return IPv6 addresses.
    pub allow_ipv6: bool,
}

/// Rate limits.
#[derive(Clone, Debug)]
pub struct RateLimitConfig {
    /// Master switch.
    pub enabled: bool,
    /// Requests per second of each origin.
    pub per_origin_rps: u32,
    /// Burst budget.
    pub burst: u32,
    /// Hosts without a limit.
    pub unlimited_hosts: Vec<String>,
}

/// Logs and metrics.
#[derive(Clone, Debug)]
pub struct ObservabilityConfig {
    /// Log output format.
    pub log_format: LogFormat,
    /// Filter of the log.
    pub log_level: String,
    /// Path on which metrics are served.
    pub metrics_endpoint: String,
}

/// The whole configuration.
#[derive(Clone, Debug)]
pub struct Config {
    /// The inbound listener.
    pub server: ServerConfig,
    /// Size and time limits.
    pub limits: LimitsConfig,
    /// CORS policy.
    pub cors: CorsConfig,
    /// Inbound guards.
    pub security: SecurityConfig,
    /// SSRF protection.
    pub ssrf: SsrfConfig,
    /// Rate limits.
    pub rate_limit: RateLimitConfig,
    /// The upstream client.
    pub upstream: UpstreamConfig,
    /// Logs and metrics.
    pub observability: ObservabilityConfig,
}

impl SsrfConfig {
    /// Every configured range is well formed.
    pub open spec fn wf(self) -> bool {
        forall|i: int|
            0 <= i < self.extra_blocked_cidrs@.len() ==> (#[trigger] self.extra_blocked_cidrs@[i]).wf()
    }
}

impl Config {
    /// Every part has its defaults.
    pub open spec fn is_default(self) -> bool {
        &&& self.server.is_default()
        &&& self.limits.max_request_body_bytes == 10 * 1024 * 1024
        &&& self.limits.max_request_header_bytes == 32 * 1024
        &&& self.limits.request_timeout.spec_nanos() == 60 * 1_000_000_000
        &&& self.limits.connect_timeout.spec_nanos() == 10 * 1_000_000_000
        &&& self.limits.max_redirects == 5
        &&& self.cors.policy == CorsPolicyKind::Reflect
        &&& self.cors.allowlist@.len() == 0
        &&& self.cors.explicit@.len() == 0
        &&& self.cors.max_age.spec_nanos() == 600 * 1_000_000_000
        &&& !self.cors.allow_credentials
        &&& texts(self.security.require_header@) == seq!["origin"@]
        &&& texts(self.security.block_methods@) == seq!["CONNECT"@, "TRACE"@]
        &&& texts(self.security.remove_request_headers@) == seq!["cookie"@, "cookie2"@]
        &&& texts(self.security.remove_response_headers@) == seq!["set-cookie"@, "set-cookie2"@]
        &&& self.security.origin_blacklist@.len() == 0
        &&& self.security.origin_whitelist@.len() == 0
        &&& self.ssrf.enabled
        &&& self.ssrf.extra_blocked_cidrs@.len() == 0
        &&& self.ssrf.allow_ipv6
        &&& !self.rate_limit.enabled
        &&& self.rate_limit.per_origin_rps == 10
        &&& self.rate_limit.burst == 20
        &&& self.rate_limit.unlimited_hosts@.len() == 0
        &&& self.upstream.is_default()
        &&& self.observability.log_format == LogFormat::Json
        &&& self.observability.log_level@ == "info"@
        &&& self.observability.metrics_endpoint@ == "/metrics"@
    }

    /// The configuration out of the box, on which overrides are laid.
    pub fn defaults() -> (r: Config)
        ensures
            r.is_default(),
            r.ssrf.wf(),
    {
        let require_header = vec!["origin".to_owned()];
        let block_methods = vec!["CONNECT".to_owned(), "TRACE".to_owned()];
        let remove_request_headers = vec!["cookie".to_owned(), "cookie2".to_owned()];
        let remove_response_headers = vec!["set-cookie".to_owned(), "set-cookie2".to_owned()];
        proof {
            assert(texts(require_header@) =~= seq!["origin"@]);
            assert(texts(block_methods@) =~= seq!["CONNECT"@, "TRACE"@]);
            assert(texts(remove_request_headers@) =~= seq!["cookie"@, "cookie2"@]);
            assert(texts(remove_response_headers@) =~= seq!["set-cookie"@, "set-cookie2"@]);
        }
        Config {
            server: ServerConfig::default(),
            limits: LimitsConfig {
                max_request_body_bytes: 10 * 1024 * 1024,
                max_request_header_bytes: 32 * 1024,
                request_timeout: Duration::from_secs(60),
                connect_timeout: Duration::from_secs(10),
                max_redirects: 5,
            },
            cors: CorsConfig {
                policy: CorsPolicyKind::Reflect,
                allowlist: Vec::new(),
                explicit: Vec::new(),
                max_age: Duration::from_secs(600),
                allow_credentials: false,
            },
            security: SecurityConfig {
                require_header,
                block_methods,
                remove_request_headers,
                remove_response_headers,
                origin_blacklist: Vec::new(),
                origin_whitelist: Vec::new(),
            },
            ssrf: SsrfConfig {
                enabled: true,
                extra_blocked_cidrs: Vec::new(),
                allow_ipv6: true,
            },
            rate_limit: RateLimitConfig {
                enabled: false,
                per_origin_rps: 10,
                burst: 20,
                unlimited_hosts: Vec::new(),
            },
            upstream: UpstreamConfig::default(),
            observability: ObservabilityConfig {
                log_format: LogFormat::Json,
                log_level: "info".to_owned(),
                metrics_endpoint: "/metrics".to_owned(),
            },
        }
    }
}

} // verus!
