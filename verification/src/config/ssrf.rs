//! SSRF protection configuration.

use vstd::prelude::*;

use crate::net::IpNet;

verus! {

/// SSRF protection mode.
///
/// `Strict` is the fail-closed posture. Switching to `Permissive` must be a
/// deliberate decision.
#[derive(Clone, Copy, Debug, PartialEq, Eq, Structural)]
pub enum SsrfMode {
    /// Reject every address that lies in a blocked range once standardised.
    Strict,
    /// Relax the built-in block list for trusted environments.
    Permissive {
        /// When `true` no built-in range is blocked. When `false` only the
        /// private ranges of RFC 1918 and unique-local IPv6 are opened;
        /// loopback, link-local and the others stay blocked.
        allow_private: bool,
    },
}

impl SsrfMode {
    /// Whether the policy is allowed to admit every private address, loopback
    /// and link-local included.
    pub fn admits_private(self) -> (r: bool)
        ensures
            r == (self == SsrfMode::Permissive { allow_private: true }),
    {
        match self {
            SsrfMode::Permissive { allow_private } => allow_private,
            SsrfMode::Strict => false,
        }
    }
}

/// SSRF protection.
#[derive(Clone, Debug)]
pub struct SsrfConfig {
    /// Operating mode.
    pub mode: SsrfMode,
    /// Allow name resolution to return IPv6 addresses.
    pub allow_ipv6: bool,
    /// Ranges to block on top of the built-in ones, in every mode.
    pub extra_blocked_cidrs: Vec<IpNet>,
    /// Ranges that override every block.
    pub extra_allowed_cidrs: Vec<IpNet>,
    /// Whether redirects to private addresses are to be denied. The guard holds
    /// for the targets of redirects in any case.
    pub deny_redirect_to_private: bool,
}

impl SsrfConfig {
    /// Every configured range is well formed.
    pub open spec fn wf(self) -> bool {
        &&& forall|i: int|
            0 <= i < self.extra_blocked_cidrs@.len() ==> (#[trigger] self.extra_blocked_cidrs@[i]).wf()
        &&& forall|i: int|
            0 <= i < self.extra_allowed_cidrs@.len() ==> (#[trigger] self.extra_allowed_cidrs@[i]).wf()
    }

    /// The secure defaults: strict, IPv6 on, no extra ranges.
    pub open spec fn is_default(self) -> bool {
        &&& self.mode == SsrfMode::Strict
        &&& self.allow_ipv6
        &&& self.extra_blocked_cidrs@.len() == 0
        &&& self.extra_allowed_cidrs@.len() == 0
        &&& self.deny_redirect_to_private
    }
}

impl Default for SsrfConfig {
    fn default() -> (r: Self)
        ensures
            r.is_default(),
            r.wf(),
    {
        SsrfConfig {
            mode: SsrfMode::Strict,
            allow_ipv6: true,
            extra_blocked_cidrs: Vec::new(),
            extra_allowed_cidrs: Vec::new(),
            deny_redirect_to_private: true,
        }
    }
}

} // verus!
