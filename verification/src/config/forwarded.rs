//! Forwarding header configuration.

use vstd::prelude::*;

verus! {

/// Which forwarding headers are put on outbound requests.
#[derive(Clone, Copy, Debug, PartialEq, Eq, Structural)]
pub struct ForwardedConfig {
    /// Put `x-forwarded-*` and `forwarded` on outbound requests.
    pub inject: bool,
    /// Trust an inbound `x-forwarded-for` chain and append the peer to it.
    pub trust_inbound_xff: bool,
    /// Put an `x-request-id` on requests that have none.
    pub inject_request_id: bool,
}

impl Default for ForwardedConfig {
    fn default() -> (r: ForwardedConfig)
        ensures
            r == (ForwardedConfig {
                inject: true,
                trust_inbound_xff: false,
                inject_request_id: true,
            }),
    {
        ForwardedConfig { inject: true, trust_inbound_xff: false, inject_request_id: true }
    }
}

} // verus!
