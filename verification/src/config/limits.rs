//! Size and time limits.

use vstd::prelude::*;

use crate::time::Duration;

verus! {

/// How upstream redirects are handled.
#[derive(Clone, Copy, Debug, PartialEq, Eq, Structural)]
pub enum RedirectPolicy {
    /// Follow them in the proxy, up to [`LimitsConfig::max_redirects`], with
    /// every hop checked anew.
    Follow,
    /// Answer with an error.
    Block,
    /// Hand them to the client with the `Location` leading through the proxy.
    Rewrite,
}

impl Default for RedirectPolicy {
    fn default() -> (r: RedirectPolicy)
        ensures
            r == RedirectPolicy::Follow,
    {
        RedirectPolicy::Follow
    }
}

/// Size and time limits applied to every request.
#[derive(Clone, Copy, Debug)]
pub struct LimitsConfig {
    /// Largest inbound request body in bytes.
    pub max_request_body_bytes: u64,
    /// Largest inbound request head in bytes.
    pub max_request_header_bytes: u32,
    /// How long a proxied request may take in all.
    pub request_timeout: Duration,
    /// How long connecting to the upstream may take.
    pub connect_timeout: Duration,
    /// How many redirects are followed for a request.
    pub max_redirects: u8,
    /// Whether a redirect may leave `https` for `http`.
    pub allow_https_to_http_downgrade: bool,
    /// How redirects are handled.
    pub redirect_policy: RedirectPolicy,
}

impl LimitsConfig {
    /// The defaults.
    pub open spec fn is_default(self) -> bool {
        &&& self.max_request_body_bytes == 10 * 1024 * 1024
        &&& self.max_request_header_bytes == 32 * 1024
        &&& self.request_timeout.spec_nanos() == 60 * 1_000_000_000
        &&& self.connect_timeout.spec_nanos() == 10 * 1_000_000_000
        &&& self.max_redirects == 5
        &&& !self.allow_https_to_http_downgrade
        &&& self.redirect_policy == RedirectPolicy::Follow
    }
}

impl Default for LimitsConfig {
    fn default() -> (r: LimitsConfig)
        ensures
            r.is_default(),
    {
        LimitsConfig {
            max_request_body_bytes: 10 * 1024 * 1024,
            max_request_header_bytes: 32 * 1024,
            request_timeout: Duration::from_secs(60),
            connect_timeout: Duration::from_secs(10),
            max_redirects: 5,
            allow_https_to_http_downgrade: false,
            redirect_policy: RedirectPolicy::Follow,
        }
    }
}

} // verus!
