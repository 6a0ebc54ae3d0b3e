//! Inbound request guards.

use vstd::prelude::*;

use crate::text::texts;

verus! {

/// How CORS preflights are guarded.
#[derive(Clone, Copy, Debug, PartialEq, Eq, Structural)]
pub enum PreflightMode {
    /// Apply the guards of ordinary requests.
    Enforce,
    /// Answer at once, without guards.
    Open,
}

impl Default for PreflightMode {
    fn default() -> (r: PreflightMode)
        ensures
            r == PreflightMode::Enforce,
    {
        PreflightMode::Enforce
    }
}

/// Guards of CORS preflights.
#[derive(Clone, Copy, Debug, PartialEq, Eq, Structural)]
pub struct PreflightConfig {
    /// How preflights are guarded.
    pub mode: PreflightMode,
    /// Whether enforced preflights count against the rate limits.
    pub rate_limit: bool,
}

impl Default for PreflightConfig {
    fn default() -> (r: PreflightConfig)
        ensures
            r == (PreflightConfig { mode: PreflightMode::Enforce, rate_limit: true }),
    {
        PreflightConfig { mode: PreflightMode::Enforce, rate_limit: true }
    }
}

/// How clients authenticate.
#[derive(Clone, Copy, Debug, PartialEq, Eq, Structural)]
pub enum AuthMode {
    /// They do not.
    Off,
    /// By a bearer token.
    Bearer,
}

impl Default for AuthMode {
    fn default() -> (r: AuthMode)
        ensures
            r == AuthMode::Off,
    {
        AuthMode::Off
    }
}

/// Client authentication.
#[derive(Clone, Debug)]
pub struct AuthConfig {
    /// How clients authenticate.
    pub mode: AuthMode,
    /// The tokens that are accepted.
    pub bearer_tokens: Vec<String>,
}

impl Default for AuthConfig {
    fn default() -> (r: AuthConfig)
        ensures
            r.mode == AuthMode::Off,
            r.bearer_tokens@.len() == 0,
    {
        AuthConfig { mode: AuthMode::Off, bearer_tokens: Vec::new() }
    }
}

/// Inbound guards.
#[derive(Clone, Debug)]
pub struct SecurityConfig {
    /// A request must have one of these headers; none listed means no check.
    pub require_header: Vec<String>,
    /// Methods that are blocked.
    pub block_methods: Vec<String>,
    /// Request headers stripped before forwarding.
    pub remove_request_headers: Vec<String>,
    /// Response headers stripped before they reach the client.
    pub remove_response_headers: Vec<String>,
    /// Origins that are denied.
    pub origin_blacklist: Vec<String>,
    /// Where not empty, the only origins that are let in.
    pub origin_whitelist: Vec<String>,
    /// Guards of CORS preflights.
    pub preflight: PreflightConfig,
    /// Client authentication.
    pub auth: AuthConfig,
    /// When `true`, validation fails unless the proxy is bound to known
    /// clients: by `origin_whitelist`, by bearer tokens, or by client
    /// certificates.
    pub require_client_binding: bool,
}

impl SecurityConfig {
    /// The defaults.
    pub open spec fn is_default(self) -> bool {
        &&& texts(self.require_header@) == seq!["origin"@]
        &&& texts(self.block_methods@) == seq!["CONNECT"@, "TRACE"@]
        &&& texts(self.remove_request_headers@) == seq!["cookie"@, "cookie2"@]
        &&& texts(self.remove_response_headers@) == seq!["set-cookie"@, "set-cookie2"@]
        &&& self.origin_blacklist@.len() == 0
        &&& self.origin_whitelist@.len() == 0
        &&& self.preflight == (PreflightConfig { mode: PreflightMode::Enforce, rate_limit: true })
        &&& self.auth.mode == AuthMode::Off
        &&& self.auth.bearer_tokens@.len() == 0
        &&& !self.require_client_binding
    }
}

impl Default for SecurityConfig {
    fn default() -> (r: SecurityConfig)
        ensures
            r.is_default(),
    {
        let require_header = vec!["origin".to_owned()];
        let block_methods = vec!["CONNECT".to_owned(), "TRACE".to_owned()];
        let remove_request_headers = vec!["cookie".to_owned(), "cookie2".to_owned()];
        let remove_response_headers = vec!["set-cookie".to_owned(), "set-cookie2".to_owned()];
        proof {
            assert(texts(require_header@) =~= seq!["origin"@]);
            assert(texts(block_methods@) =~= seq!["CONNECT"@, "TRACE"@]);
            assert(texts(remove_request_headers@) =~= seq!["cookie"@, "cookie2"@]);
            assert(texts(remove_response_headers@) =~= seq!["set-cookie"@, "set-cookie2"@]);
        }
        SecurityConfig {
            require_header,
            block_methods,
            remove_request_headers,
            remove_response_headers,
            origin_blacklist: Vec::new(),
            origin_whitelist: Vec::new(),
            preflight: PreflightConfig::default(),
            auth: AuthConfig::default(),
            require_client_binding: false,
        }
    }
}

} // verus!
