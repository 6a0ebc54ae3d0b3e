//! Configuration of the proxy: its data, the defaults, and the validation.
pub mod circuit;
pub mod cors;
pub mod defaults;
pub mod forwarded;
pub mod limits;
pub mod observability;
pub mod rate_limit;
pub mod security;
pub mod server;
pub mod ssrf;
pub mod target;
pub mod tls;
pub mod upstream;
pub mod validate;

pub use self::circuit::CircuitBreakerConfig;
pub use self::cors::{CorsConfig, CorsPolicyKind};
pub use self::defaults::Config;
pub use self::forwarded::ForwardedConfig;
pub use self::limits::{LimitsConfig, RedirectPolicy};
pub use self::observability::{LogFormat, ObservabilityConfig, OtelConfig, OtelProtocol};
pub use self::rate_limit::{
    GlobalLimitConfig, HostLimitConfig, IpLimitConfig, OriginLimitConfig, RateLimitConfig,
};
pub use self::security::{AuthConfig, AuthMode, PreflightConfig, PreflightMode, SecurityConfig};
pub use self::server::ServerConfig;
pub use self::ssrf::{SsrfConfig, SsrfMode};
pub use self::target::{TargetConfig, TargetMode};
pub use self::tls::TlsConfig;
pub use self::upstream::UpstreamConfig;
pub use self::validate::{ConfigError, TlsFiles, ValidationReport};
