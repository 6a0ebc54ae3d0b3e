//! CORS configuration.

use vstd::prelude::*;

use crate::text::texts;
use crate::time::Duration;

verus! {

/// CORS policy discriminant.
#[derive(Clone, Copy, Debug, PartialEq, Eq, Structural)]
pub enum CorsPolicyKind {
    /// Return `Access-Control-Allow-Origin: *`.
    Wildcard,
    /// Reflect the request `Origin`, optionally gated by a list.
    Reflect,
    /// Reflect `Origin` only if it is one of the listed values.
    Explicit,
}

/// CORS response-shaping configuration.
#[derive(Clone, Debug)]
pub struct CorsConfig {
    /// Which policy to apply.
    pub policy: CorsPolicyKind,
    /// Used by [`CorsPolicyKind::Reflect`]; none listed means any origin.
    pub allowlist: Vec<String>,
    /// Used by [`CorsPolicyKind::Explicit`].
    pub explicit: Vec<String>,
    /// Methods advertised on preflight responses. None listed means that the
    /// requested method is echoed.
    pub allowed_methods: Vec<String>,
    /// Headers advertised on preflight responses. None listed means that the
    /// requested headers are echoed.
    pub allowed_headers: Vec<String>,
    /// Headers that scripts may read on real responses. `x-corx-status` and
    /// `x-request-id` are always exposed besides these.
    pub exposed_headers: Vec<String>,
    /// How long a preflight response may be cached.
    pub max_age: Duration,
    /// Whether to allow credentials.
    pub allow_credentials: bool,
    /// Whether to answer the private network handshake.
    pub allow_private_network: bool,
}

/// The methods advertised by default.
pub open spec fn standard_methods() -> Seq<Seq<char>> {
    seq!["GET"@, "HEAD"@, "POST"@, "PUT"@, "DELETE"@, "PATCH"@, "OPTIONS"@]
}

/// The request headers advertised by default.
pub open spec fn standard_headers() -> Seq<Seq<char>> {
    seq![
        "accept"@,
        "accept-language"@,
        "authorization"@,
        "content-language"@,
        "content-type"@,
        "x-requested-with"@,
        "x-request-id"@,
    ]
}

/// The response headers exposed by default.
pub open spec fn standard_exposed() -> Seq<Seq<char>> {
    seq!["x-corx-status"@, "x-corx-target-url"@, "x-request-id"@]
}

/// The methods advertised by default.
pub fn default_allowed_methods() -> (r: Vec<String>)
    ensures
        texts(r@) == standard_methods(),
{
    let r = vec![
        "GET".to_owned(),
        "HEAD".to_owned(),
        "POST".to_owned(),
        "PUT".to_owned(),
        "DELETE".to_owned(),
        "PATCH".to_owned(),
        "OPTIONS".to_owned(),
    ];
    assert(texts(r@) =~= standard_methods());
    r
}

/// The request headers advertised by default.
pub fn default_allowed_headers() -> (r: Vec<String>)
    ensures
        texts(r@) == standard_headers(),
{
    let r = vec![
        "accept".to_owned(),
        "accept-language".to_owned(),
        "authorization".to_owned(),
        "content-language".to_owned(),
        "content-type".to_owned(),
        "x-requested-with".to_owned(),
        "x-request-id".to_owned(),
    ];
    assert(texts(r@) =~= standard_headers());
    r
}

/// The response headers exposed by default.
pub fn default_exposed_headers() -> (r: Vec<String>)
    ensures
        texts(r@) == standard_exposed(),
{
    let r = vec![
        "x-corx-status".to_owned(),
        "x-corx-target-url".to_owned(),
        "x-request-id".to_owned(),
    ];
    assert(texts(r@) =~= standard_exposed());
    r
}

impl CorsConfig {
    /// The defaults: reflect any origin, the usual methods and headers, ten
    /// minutes of caching, no credentials.
    pub open spec fn is_default(self) -> bool {
        &&& self.policy == CorsPolicyKind::Reflect
        &&& self.allowlist@.len() == 0
        &&& self.explicit@.len() == 0
        &&& texts(self.allowed_methods@) == standard_methods()
        &&& texts(self.allowed_headers@) == standard_headers()
        &&& texts(self.exposed_headers@) == standard_exposed()
        &&& self.max_age.spec_nanos() == 600 * 1_000_000_000
        &&& !self.allow_credentials
        &&& !self.allow_private_network
    }
}

impl Default for CorsConfig {
    fn default() -> (r: CorsConfig)
        ensures
            r.is_default(),
    {
        CorsConfig {
            policy: CorsPolicyKind::Reflect,
            allowlist: Vec::new(),
            explicit: Vec::new(),
            allowed_methods: default_allowed_methods(),
            allowed_headers: default_allowed_headers(),
            exposed_headers: default_exposed_headers(),
            max_age: Duration::from_secs(600),
            allow_credentials: false,
            allow_private_network: false,
        }
    }
}

} // verus!
