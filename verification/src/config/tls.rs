//! TLS of the inbound listener.

use vstd::prelude::*;

use crate::text::texts;

verus! {

/// TLS of the inbound listener.
#[derive(Clone, Debug)]
pub struct TlsConfig {
    /// Path of the certificate chain.
    pub cert_path: String,
    /// Path of the private key.
    pub key_path: String,
    /// Path of the trust anchors for client certificates. Where it is set,
    /// clients must present one.
    pub client_ca_path: Option<String>,
    /// Protocols to offer, in order of preference.
    pub alpn_protocols: Vec<String>,
}

/// The protocols offered by default.
pub fn default_alpn_protocols() -> (r: Vec<String>)
    ensures
        texts(r@) == seq!["h2"@, "http/1.1"@],
{
    let r = vec!["h2".to_owned(), "http/1.1".to_owned()];
    assert(texts(r@) =~= seq!["h2"@, "http/1.1"@]);
    r
}

} // verus!
