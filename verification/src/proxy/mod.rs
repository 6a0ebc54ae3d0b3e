//! The forwarding engine.
pub mod cors;
pub mod forwarded;
pub mod headers;
pub mod redirect;
pub mod ssrf;
pub mod upstream;
pub mod url_parser;

pub use self::cors::{
    apply_to_error_response, apply_to_response, build_preflight_response, is_preflight, CorsPolicy,
};
pub use self::forwarded::{inject as inject_forwarded, InboundContext, REQUEST_ID_HEADER};
pub use self::headers::HeaderFilter;
pub use self::ssrf::SsrfGuard;
pub use self::upstream::{Upstream, UpstreamConfig};
pub use self::url_parser::{extract_target, TargetUrl};
