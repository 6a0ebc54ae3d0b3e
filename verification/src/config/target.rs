//! Upstream target admission configuration.

use vstd::prelude::*;

use crate::text::texts;

verus! {

/// How host names are filtered before name resolution.
#[derive(Clone, Copy, Debug, PartialEq, Eq, Structural)]
pub enum TargetMode {
    /// Any host is admitted; the SSRF guard still applies to its addresses.
    AnyPublic,
    /// Only hosts that match [`TargetConfig::hosts`] are admitted.
    Allowlist,
    /// Hosts that match [`TargetConfig::hosts`] are rejected, all others are
    /// admitted.
    Denylist,
}

impl Default for TargetMode {
    fn default() -> (r: TargetMode)
        ensures
            r == TargetMode::AnyPublic,
    {
        TargetMode::AnyPublic
    }
}

/// Target admission by host and scheme.
#[derive(Clone, Debug)]
pub struct TargetConfig {
    /// Host admission mode.
    pub mode: TargetMode,
    /// Host patterns: an exact host (`api.example.com`), or a suffix
    /// (`.example.com` matches `a.example.com` and `example.com`).
    pub hosts: Vec<String>,
    /// Allowed schemes. None listed means `https` and `http`.
    pub schemes: Vec<String>,
    /// Reject all but `https` targets, whatever `schemes` says.
    pub https_only: bool,
}

/// The schemes allowed by default.
pub open spec fn web_schemes() -> Seq<Seq<char>> {
    seq!["https"@, "http"@]
}

/// The schemes allowed by default.
pub fn default_schemes() -> (r: Vec<String>)
    ensures
        texts(r@) == web_schemes(),
{
    let r = vec!["https".to_owned(), "http".to_owned()];
    assert(texts(r@) =~= web_schemes());
    r
}

impl TargetConfig {
    /// The defaults: any host, the web schemes.
    pub open spec fn is_default(self) -> bool {
        &&& self.mode == TargetMode::AnyPublic
        &&& self.hosts@.len() == 0
        &&& texts(self.schemes@) == web_schemes()
        &&& !self.https_only
    }
}

impl Default for TargetConfig {
    fn default() -> (r: TargetConfig)
        ensures
            r.is_default(),
    {
        TargetConfig {
            mode: TargetMode::AnyPublic,
            hosts: Vec::new(),
            schemes: default_schemes(),
            https_only: false,
        }
    }
}

} // verus!
