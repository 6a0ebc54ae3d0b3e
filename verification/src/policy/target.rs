//! Target host and scheme admission.

use vstd::prelude::*;

use crate::config::target::{default_schemes, web_schemes, TargetConfig, TargetMode};
use crate::error::{ErrorView, ProxyError};
use crate::proxy::url_parser::TargetUrl;
use crate::text::{
    concat3, ends_with_text, from_chars, has_suffix, lower, same_text, texts, to_ascii_lowercase,
    to_chars, trim, trimmed,
};
use crate::uri::{Uri, UriView};

verus! {

/// Compiled target admission policy.
///
/// It is applied to the first target and to every redirect hop, so that a
/// redirect leads nowhere that the first request could not go.
#[derive(Debug)]
pub struct TargetPolicy {
    mode: TargetMode,
    hosts: Vec<String>,
    schemes: Vec<String>,
    https_only: bool,
}

/// The mathematical content of a [`TargetPolicy`].
pub struct TargetPolicyView {
    /// Host admission mode.
    pub mode: TargetMode,
    /// Host patterns in lower case.
    pub hosts: Seq<Seq<char>>,
    /// Allowed schemes in lower case.
    pub schemes: Seq<Seq<char>>,
    /// Whether only `https` is admitted.
    pub https_only: bool,
}

impl View for TargetPolicy {
    type V = TargetPolicyView;

    closed spec fn view(&self) -> TargetPolicyView {
        TargetPolicyView {
            mode: self.mode,
            hosts: texts(self.hosts@),
            schemes: texts(self.schemes@),
            https_only: self.https_only,
        }
    }
}

impl Clone for TargetPolicy {
    fn clone(&self) -> (r: TargetPolicy)
        ensures
            r@ == self@,
    {
        let hosts = self.hosts.clone();
        let schemes = self.schemes.clone();
        proof {
            assert(texts(hosts@) =~= texts(self.hosts@));
            assert(texts(schemes@) =~= texts(self.schemes@));
        }
        TargetPolicy { mode: self.mode, hosts, schemes, https_only: self.https_only }
    }
}

/// A configured name: trimmed, in lower case.
pub open spec fn clean(raw: Seq<char>) -> Seq<char> {
    lower(trim(raw))
}

/// The configured patterns, cleaned; those that are empty are dropped.
pub open spec fn patterns(raw: Seq<Seq<char>>) -> Seq<Seq<char>>
    decreases raw.len(),
{
    if raw.len() == 0 {
        Seq::empty()
    } else if clean(raw.last()).len() == 0 {
        patterns(raw.drop_last())
    } else {
        patterns(raw.drop_last()).push(clean(raw.last()))
    }
}

/// Whether `host` matches `pattern`. A pattern that starts with a dot stands
/// for the domain behind the dot and for everything below it; any other stands
/// for itself.
pub open spec fn matches_host(pattern: Seq<char>, host: Seq<char>) -> bool {
    if pattern.len() > 0 && pattern[0] == '.' {
        host == pattern.skip(1) || has_suffix(host, pattern)
    } else {
        host == pattern
    }
}

impl TargetPolicyView {
    /// The policy that `cfg` describes.
    pub open spec fn of(cfg: TargetConfig) -> TargetPolicyView {
        TargetPolicyView {
            mode: cfg.mode,
            hosts: patterns(texts(cfg.hosts@)),
            schemes: if cfg.schemes@.len() == 0 {
                web_schemes()
            } else {
                texts(cfg.schemes@).map_values(|s: Seq<char>| clean(s))
            },
            https_only: cfg.https_only,
        }
    }

    /// Whether `host`, in lower case, matches a pattern.
    pub open spec fn listed(self, host: Seq<char>) -> bool {
        exists|i: int| 0 <= i < self.hosts.len() && matches_host(#[trigger] self.hosts[i], host)
    }

    /// The verdict on a scheme and a host.
    pub open spec fn verdict(self, scheme: Seq<char>, host: Seq<char>) -> Result<(), ErrorView> {
        let s = lower(scheme);
        let h = lower(host);
        if self.https_only && s != "https"@ {
            Err(ErrorView::TargetNotAllowed("scheme `"@ + s + "` rejected (https_only)"@))
        } else if !self.schemes.contains(s) {
            Err(ErrorView::TargetNotAllowed("scheme `"@ + s + "` is not allowed"@))
        } else {
            match self.mode {
                TargetMode::AnyPublic => Ok(()),
                TargetMode::Allowlist => if self.hosts.len() == 0 {
                    Err(ErrorView::TargetNotAllowed("allowlist is empty"@))
                } else if self.listed(h) {
                    Ok(())
                } else {
                    Err(ErrorView::TargetNotAllowed("host `"@ + h + "` is not on the allowlist"@))
                },
                TargetMode::Denylist => if self.listed(h) {
                    Err(ErrorView::TargetNotAllowed("host `"@ + h + "` is denylisted"@))
                } else {
                    Ok(())
                },
            }
        }
    }

    /// The verdict on the URI of a hop.
    pub open spec fn uri_verdict(self, uri: UriView) -> Result<(), ErrorView> {
        match uri.scheme {
            None => Err(ErrorView::InvalidUrl("hop URI lacks a scheme"@)),
            Some(scheme) => match uri.host {
                None => Err(ErrorView::InvalidUrl("hop URI lacks a host"@)),
                Some(host) => self.verdict(scheme, host),
            },
        }
    }
}

/// The view of a verdict.
pub open spec fn verdict_of(r: Result<(), ProxyError>) -> Result<(), ErrorView> {
    match r {
        Ok(()) => Ok(()),
        Err(err) => Err(err@),
    }
}

/// A configured name: trimmed, in lower case.
fn cleaned(raw: &str) -> (r: String)
    ensures
        r@ == clean(raw@),
{
    let name = trimmed(raw);
    to_ascii_lowercase(name.as_str())
}

/// Whether `host` matches `pattern`.
pub fn host_matches(pattern: &str, host: &str) -> (r: bool)
    ensures
        r == matches_host(pattern@, host@),
{
    let chars = to_chars(pattern);
    if chars.len() > 0 && chars[0] == '.' {
        let domain = from_chars(&chars, 1, chars.len());
        assert(domain@ == pattern@.skip(1));
        same_text(host, domain.as_str()) || ends_with_text(host, pattern)
    } else {
        same_text(host, pattern)
    }
}

impl TargetPolicy {
    /// Compiles the policy from its configuration.
    pub fn from_config(cfg: &TargetConfig) -> (r: TargetPolicy)
        ensures
            r@ == TargetPolicyView::of(*cfg),
    {
        let mut hosts: Vec<String> = Vec::new();
        let ghost raw = texts(cfg.hosts@);
        let mut i: usize = 0;
        while i < cfg.hosts.len()
            invariant
                i <= cfg.hosts@.len(),
                raw == texts(cfg.hosts@),
                texts(hosts@) == patterns(raw.take(i as int)),
            decreases cfg.hosts@.len() - i,
        {
            proof {
                assert(raw.take(i + 1).drop_last() == raw.take(i as int));
                assert(raw.take(i + 1).last() == cfg.hosts@[i as int]@);
            }
            let host = cleaned(cfg.hosts[i].as_str());
            if !host.as_str().is_empty() {
                let ghost before = hosts@;
                hosts.push(host);
                assert(texts(hosts@) =~= texts(before).push(host@));
            }
            i += 1;
        }
        proof {
            assert(raw.take(i as int) == raw);
        }
        let schemes = if cfg.schemes.len() == 0 {
            default_schemes()
        } else {
            let mut out: Vec<String> = Vec::new();
            let mut j: usize = 0;
            while j < cfg.schemes.len()
                invariant
                    j <= cfg.schemes@.len(),
                    out@.len() == j,
                    forall|k: int| 0 <= k < j ==> (#[trigger] out@[k])@ == clean(cfg.schemes@[k]@),
                decreases cfg.schemes@.len() - j,
            {
                out.push(cleaned(cfg.schemes[j].as_str()));
                j += 1;
            }
            assert(texts(out@) =~= texts(cfg.schemes@).map_values(|s: Seq<char>| clean(s)));
            out
        };
        TargetPolicy { mode: cfg.mode, hosts, schemes, https_only: cfg.https_only }
    }

    /// Admits or rejects a parsed target.
    pub fn check(&self, target: &TargetUrl) -> (r: Result<(), ProxyError>)
        ensures
            verdict_of(r) == self@.verdict(target@.url.scheme, target@.host),
    {
        self.check_authority(target.url.scheme(), target.host.as_str())
    }

    /// Admits or rejects a hop given by its scheme and host. Case does not
    /// matter in either.
    pub fn check_authority(&self, scheme: &str, host: &str) -> (r: Result<(), ProxyError>)
        ensures
            verdict_of(r) == self@.verdict(scheme@, host@),
    {
        let scheme = to_ascii_lowercase(scheme);
        if self.https_only && !same_text(scheme.as_str(), "https") {
            return Err(
                ProxyError::TargetNotAllowed(
                    concat3("scheme `", scheme.as_str(), "` rejected (https_only)"),
                ),
            );
        }
        if !self.allows_scheme(scheme.as_str()) {
            return Err(
                ProxyError::TargetNotAllowed(
                    concat3("scheme `", scheme.as_str(), "` is not allowed"),
                ),
            );
        }
        let host = to_ascii_lowercase(host);
        let matched = self.lists(host.as_str());
        match self.mode {
            TargetMode::AnyPublic => Ok(()),
            TargetMode::Allowlist => {
                if self.hosts.len() == 0 {
                    return Err(ProxyError::TargetNotAllowed("allowlist is empty".to_owned()));
                }
                if matched {
                    Ok(())
                } else {
                    Err(
                        ProxyError::TargetNotAllowed(
                            concat3("host `", host.as_str(), "` is not on the allowlist"),
                        ),
                    )
                }
            },
            TargetMode::Denylist => {
                if matched {
                    Err(
                        ProxyError::TargetNotAllowed(
                            concat3("host `", host.as_str(), "` is denylisted"),
                        ),
                    )
                } else {
                    Ok(())
                }
            },
        }
    }

    /// Admits or rejects the URI of a hop, as is done on every redirect.
    pub fn check_uri(&self, uri: &Uri) -> (r: Result<(), ProxyError>)
        ensures
            verdict_of(r) == self@.uri_verdict(uri@),
    {
        let scheme = match &uri.scheme {
            Some(scheme) => scheme,
            None => {
                return Err(ProxyError::InvalidUrl("hop URI lacks a scheme".to_owned()));
            },
        };
        let host = match &uri.host {
            Some(host) => host,
            None => {
                return Err(ProxyError::InvalidUrl("hop URI lacks a host".to_owned()));
            },
        };
        self.check_authority(scheme.as_str(), host.as_str())
    }

    fn allows_scheme(&self, scheme: &str) -> (r: bool)
        ensures
            r == self@.schemes.contains(scheme@),
    {
        let mut i: usize = 0;
        while i < self.schemes.len()
            invariant
                i <= self.schemes@.len(),
                forall|k: int| 0 <= k < i ==> (#[trigger] self.schemes@[k])@ != scheme@,
            decreases self.schemes@.len() - i,
        {
            if same_text(self.schemes[i].as_str(), scheme) {
                assert(self@.schemes[i as int] == scheme@);
                return true;
            }
            i += 1;
        }
        proof {
            if self@.schemes.contains(scheme@) {
                let k = choose|k: int| 0 <= k < self@.schemes.len() && self@.schemes[k] == scheme@;
                assert(self.schemes@[k]@ == scheme@);
            }
        }
        false
    }

    fn lists(&self, host: &str) -> (r: bool)
        ensures
            r == self@.listed(host@),
    {
        let mut i: usize = 0;
        while i < self.hosts.len()
            invariant
                i <= self.hosts@.len(),
                forall|k: int| 0 <= k < i ==> !matches_host((#[trigger] self.hosts@[k])@, host@),
            decreases self.hosts@.len() - i,
        {
            if host_matches(self.hosts[i].as_str(), host) {
                assert(matches_host(self@.hosts[i as int], host@));
                return true;
            }
            i += 1;
        }
        proof {
            if self@.listed(host@) {
                let k = choose|k: int|
                    0 <= k < self@.hosts.len() && matches_host(#[trigger] self@.hosts[k], host@);
                assert(!matches_host(self.hosts@[k]@, host@));
            }
        }
        false
    }
}

/// With `https_only`, nothing but `https` is admitted.
pub proof fn law_https_only(policy: TargetPolicyView, scheme: Seq<char>, host: Seq<char>)
    requires
        policy.https_only,
        policy.verdict(scheme, host) is Ok,
    ensures
        lower(scheme) == "https"@,
{
}

/// An allow list admits no host that it does not list, and so none when it is
/// empty.
pub proof fn law_allow_list(policy: TargetPolicyView, scheme: Seq<char>, host: Seq<char>)
    requires
        policy.mode == TargetMode::Allowlist,
        policy.verdict(scheme, host) is Ok,
    ensures
        policy.listed(lower(host)),
        policy.hosts.len() > 0,
{
}

/// A deny list admits no host that it lists.
pub proof fn law_deny_list(policy: TargetPolicyView, scheme: Seq<char>, host: Seq<char>)
    requires
        policy.mode == TargetMode::Denylist,
        policy.listed(lower(host)),
    ensures
        policy.verdict(scheme, host) is Err,
{
}

/// Case matters neither in the scheme nor in the host.
pub proof fn law_case_does_not_matter(policy: TargetPolicyView, scheme: Seq<char>, host: Seq<char>)
    ensures
        policy.verdict(lower(scheme), lower(host)) == policy.verdict(scheme, host),
{
    assert(lower(lower(scheme)) =~= lower(scheme));
    assert(lower(lower(host)) =~= lower(host));
}

/// A pattern with a leading dot covers its domain and every subdomain.
pub proof fn law_suffix_pattern(domain: Seq<char>, sub: Seq<char>)
    ensures
        matches_host(seq!['.'] + domain, domain),
        matches_host(seq!['.'] + domain, sub + seq!['.'] + domain),
{
    let pattern = seq!['.'] + domain;
    let host = sub + seq!['.'] + domain;
    assert(pattern.skip(1) =~= domain);
    assert(host.skip(host.len() - pattern.len()) =~= pattern);
    assert(host =~= sub + pattern);
}

} // verus!
