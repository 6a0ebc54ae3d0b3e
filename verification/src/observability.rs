//! Names of the metrics.

use vstd::prelude::*;

verus! {

/// Counter: inbound requests handled.
pub const REQUESTS_TOTAL: &'static str = "corx_requests_total";

/// Histogram: duration of inbound requests in seconds.
pub const REQUEST_DURATION: &'static str = "corx_request_duration_seconds";

/// Histogram: duration of upstream requests in seconds.
pub const UPSTREAM_DURATION: &'static str = "corx_upstream_duration_seconds";

/// Counter: upstream failures by reason.
pub const UPSTREAM_ERRORS: &'static str = "corx_upstream_errors_total";

/// Gauge: requests under way.
pub const INFLIGHT_REQUESTS: &'static str = "corx_inflight_requests";

/// Counter: bytes transferred by direction.
pub const BYTES_TRANSFERRED: &'static str = "corx_bytes_transferred_total";

/// Counter: requests denied by the rate limiter, by dimension.
pub const RATE_LIMITED: &'static str = "corx_rate_limited_total";

/// Counter: interceptions of the SSRF guard by range.
pub const SSRF_BLOCKS: &'static str = "corx_ssrf_blocks_total";

/// Counter: name lookups by result.
pub const DNS_LOOKUPS: &'static str = "corx_dns_lookups_total";

/// Histogram: redirect hops of a request by target host.
pub const REDIRECT_HOPS: &'static str = "corx_redirect_hops";

/// Gauge: active WebSocket connections.
pub const WEBSOCKET_ACTIVE: &'static str = "corx_websocket_connections_active";

/// Counter: WebSocket handshakes by status.
pub const WEBSOCKET_HANDSHAKES: &'static str = "corx_websocket_handshakes_total";

/// Counter: configuration reloads by result.
pub const CONFIG_RELOAD: &'static str = "corx_config_reload_total";

/// Gauge: build information, always 1.
pub const BUILD_INFO: &'static str = "corx_build_info";

/// Counter: requests rejected by an open circuit.
pub const CIRCUIT_REJECTS: &'static str = "corx_circuit_rejects_total";

/// Counter: circuits opened.
pub const CIRCUIT_OPENS: &'static str = "corx_circuit_opens_total";

} // verus!
