//! Laws of target admission.

use vstd::prelude::*;

use crate::config::target::{web_schemes, TargetConfig, TargetMode};
use crate::error::ErrorView;
use crate::laws::text::{law_lower_forgets_case, same_but_case};
use crate::policy::target::{clean, matches_host, patterns, TargetPolicyView};
use crate::text::{lower, texts, trim};
use crate::uri::UriView;

verus! {

/// Whether a configured pattern covers a host, in whatever case and with white
/// space around it: with a dot in front it covers the domain behind the dot and
/// all that ends in the pattern, and without one it covers itself. A blank
/// pattern covers nothing.
pub open spec fn covers(raw: Seq<char>, host: Seq<char>) -> bool {
    let pattern = trim(raw);
    &&& pattern.len() > 0
    &&& if pattern[0] == '.' {
        ||| same_but_case(pattern.skip(1), host)
        ||| host.len() >= pattern.len() && same_but_case(
            pattern,
            host.skip(host.len() - pattern.len()),
        )
    } else {
        same_but_case(pattern, host)
    }
}

/// Whether a configured pattern covers the host.
pub open spec fn covered(cfg: TargetConfig, host: Seq<char>) -> bool {
    exists|i: int| 0 <= i < cfg.hosts@.len() && covers((#[trigger] cfg.hosts@[i])@, host)
}

/// Whether the scheme is among those configured, or a web scheme where none is.
pub open spec fn scheme_allowed(cfg: TargetConfig, scheme: Seq<char>) -> bool {
    if cfg.schemes@.len() == 0 {
        same_but_case(scheme, "http"@) || same_but_case(scheme, "https"@)
    } else {
        exists|i: int|
            0 <= i < cfg.schemes@.len() && same_but_case(trim((#[trigger] cfg.schemes@[i])@), scheme)
    }
}

proof fn lemma_covers(raw: Seq<char>, host: Seq<char>)
    ensures
        covers(raw, host) <==> clean(raw).len() > 0 && matches_host(clean(raw), lower(host)),
{
    let p = trim(raw);
    if p.len() > 0 {
        assert(lower(p)[0] == '.' <==> p[0] == '.');
        assert(lower(p).skip(1) =~= lower(p.skip(1)));
        law_lower_forgets_case(p.skip(1), host);
        law_lower_forgets_case(p, host);
        if host.len() >= p.len() {
            let n = host.len() - p.len();
            assert(lower(host).skip(n) =~= lower(host.skip(n)));
            law_lower_forgets_case(p, host.skip(n));
        }
    }
}

proof fn lemma_pattern_kept(raw: Seq<Seq<char>>, i: int)
    requires
        0 <= i < raw.len(),
        clean(raw[i]).len() > 0,
    ensures
        patterns(raw).contains(clean(raw[i])),
    decreases raw.len(),
{
    let rest = raw.drop_last();
    if i == raw.len() - 1 {
        assert(patterns(raw)[patterns(rest).len() as int] == clean(raw[i]));
    } else {
        lemma_pattern_kept(rest, i);
        let k = choose|k: int| 0 <= k < patterns(rest).len() && patterns(rest)[k] == clean(raw[i]);
        assert(patterns(raw)[k] == clean(raw[i]));
    }
}

proof fn lemma_pattern_from(raw: Seq<Seq<char>>, k: int) -> (i: int)
    requires
        0 <= k < patterns(raw).len(),
    ensures
        0 <= i < raw.len(),
        clean(raw[i]).len() > 0,
        patterns(raw)[k] == clean(raw[i]),
    decreases raw.len(),
{
    let rest = raw.drop_last();
    if k < patterns(rest).len() {
        lemma_pattern_from(rest, k)
    } else {
        raw.len() - 1
    }
}

proof fn lemma_covered(cfg: TargetConfig, host: Seq<char>)
    ensures
        TargetPolicyView::of(cfg).listed(lower(host)) <==> covered(cfg, host),
        covered(cfg, host) ==> TargetPolicyView::of(cfg).hosts.len() > 0,
{
    let policy = TargetPolicyView::of(cfg);
    let raw = texts(cfg.hosts@);
    if covered(cfg, host) {
        let i = choose|i: int| 0 <= i < cfg.hosts@.len() && covers((#[trigger] cfg.hosts@[i])@, host);
        lemma_covers(raw[i], host);
        lemma_pattern_kept(raw, i);
        let k = choose|k: int| 0 <= k < policy.hosts.len() && policy.hosts[k] == clean(raw[i]);
        assert(matches_host(policy.hosts[k], lower(host)));
    }
    if policy.listed(lower(host)) {
        let k = choose|k: int|
            0 <= k < policy.hosts.len() && matches_host(#[trigger] policy.hosts[k], lower(host));
        let i = lemma_pattern_from(raw, k);
        lemma_covers(raw[i], host);
        assert(covers(cfg.hosts@[i]@, host));
    }
}

proof fn lemma_scheme_allowed(cfg: TargetConfig, scheme: Seq<char>)
    ensures
        TargetPolicyView::of(cfg).schemes.contains(lower(scheme)) <==> scheme_allowed(cfg, scheme),
        lower(scheme) == "https"@ <==> same_but_case(scheme, "https"@),
{
    reveal_strlit("http");
    reveal_strlit("https");
    law_lower_forgets_case(scheme, "http"@);
    law_lower_forgets_case(scheme, "https"@);
    assert(lower("http"@) =~= "http"@);
    assert(lower("https"@) =~= "https"@);
    let all = TargetPolicyView::of(cfg).schemes;
    if cfg.schemes@.len() == 0 {
        assert(web_schemes().len() == 2);
        assert(web_schemes()[0] == "http"@ || web_schemes()[0] == "https"@);
        assert(web_schemes()[1] == "http"@ || web_schemes()[1] == "https"@);
        assert(web_schemes().contains("http"@)) by {
            assert(web_schemes()[0] == "http"@ || web_schemes()[1] == "http"@);
        }
        assert(web_schemes().contains("https"@)) by {
            assert(web_schemes()[0] == "https"@ || web_schemes()[1] == "https"@);
        }
    } else {
        if scheme_allowed(cfg, scheme) {
            let i = choose|i: int|
                0 <= i < cfg.schemes@.len() && same_but_case(
                    trim((#[trigger] cfg.schemes@[i])@),
                    scheme,
                );
            law_lower_forgets_case(trim(cfg.schemes@[i]@), scheme);
            assert(all[i] == lower(scheme));
        }
        if all.contains(lower(scheme)) {
            let i = choose|i: int| 0 <= i < all.len() && all[i] == lower(scheme);
            law_lower_forgets_case(trim(cfg.schemes@[i]@), scheme);
            assert(same_but_case(trim(cfg.schemes@[i]@), scheme));
        }
    }
}

/// A target is admitted exactly where its scheme is allowed, is `https` where
/// nothing else may be, and its host is covered by an allow list, is not covered
/// by a deny list, or is not asked for. An allow list that covers nothing admits
/// nothing.
pub proof fn law_admission(cfg: TargetConfig, scheme: Seq<char>, host: Seq<char>)
    ensures
        ({
            let by_scheme = scheme_allowed(cfg, scheme) && (cfg.https_only ==> same_but_case(
                scheme,
                "https"@,
            ));
            let by_host = match cfg.mode {
                TargetMode::AnyPublic => true,
                TargetMode::Allowlist => covered(cfg, host),
                TargetMode::Denylist => !covered(cfg, host),
            };
            match TargetPolicyView::of(cfg).verdict(scheme, host) {
                Ok(()) => by_scheme && by_host,
                Err(err) => err is TargetNotAllowed && !(by_scheme && by_host),
            }
        }),
{
    lemma_scheme_allowed(cfg, scheme);
    lemma_covered(cfg, host);
}

/// What the refusal of a target tells: the scheme or the host in lower case, and
/// why it is refused, the scheme before the host.
pub proof fn law_refusals_tell_why(policy: TargetPolicyView, scheme: Seq<char>, host: Seq<char>)
    ensures
        ({
            let s = lower(scheme);
            let h = lower(host);
            policy.verdict(scheme, host) matches Err(err) ==> {
                ||| err == ErrorView::TargetNotAllowed("scheme `"@ + s + "` rejected (https_only)"@)
                    && policy.https_only && !same_but_case(scheme, "https"@)
                ||| err == ErrorView::TargetNotAllowed("scheme `"@ + s + "` is not allowed"@)
                    && !policy.schemes.contains(s) && (policy.https_only ==> same_but_case(
                    scheme,
                    "https"@,
                ))
                ||| err == ErrorView::TargetNotAllowed("allowlist is empty"@) && policy.mode
                    == TargetMode::Allowlist && policy.hosts.len() == 0 && policy.schemes.contains(s)
                ||| err == ErrorView::TargetNotAllowed("host `"@ + h + "` is not on the allowlist"@)
                    && policy.mode == TargetMode::Allowlist && policy.hosts.len() > 0
                    && policy.schemes.contains(s)
                ||| err == ErrorView::TargetNotAllowed("host `"@ + h + "` is denylisted"@)
                    && policy.mode == TargetMode::Denylist && policy.schemes.contains(s)
            }
        }),
{
    reveal_strlit("https");
    law_lower_forgets_case(scheme, "https"@);
    assert(lower("https"@) =~= "https"@);
}

/// A hop is judged by its scheme and its host, and refused without one of them.
pub proof fn law_hop_admission(policy: TargetPolicyView, uri: UriView)
    ensures
        uri.scheme is None || uri.host is None ==> (policy.uri_verdict(uri) matches Err(err) && err
            is InvalidUrl),
        uri.scheme matches Some(scheme) ==> (uri.host matches Some(host) ==> policy.uri_verdict(uri)
            == policy.verdict(scheme, host)),
{
}

/// A pattern with a dot in front covers a host exactly where the host is the
/// domain behind the dot or ends in the pattern; any other covers itself alone.
pub proof fn law_host_patterns(pattern: Seq<char>, host: Seq<char>)
    ensures
        pattern.len() > 0 && pattern[0] == '.' ==> (matches_host(pattern, host) <==> (seq!['.'] + host
            == pattern || exists|sub: Seq<char>| #[trigger] (sub + pattern) == host)),
        pattern.len() == 0 || pattern[0] != '.' ==> (matches_host(pattern, host) <==> host
            == pattern),
{
    if pattern.len() > 0 && pattern[0] == '.' {
        assert((seq!['.'] + host).skip(1) =~= host);
        assert(seq!['.'] + pattern.skip(1) =~= pattern);
        if host.len() >= pattern.len() {
            let n = host.len() - pattern.len();
            assert(host.take(n) + host.skip(n) =~= host);
        }
        if exists|sub: Seq<char>| #[trigger] (sub + pattern) == host {
            let sub = choose|sub: Seq<char>| #[trigger] (sub + pattern) == host;
            assert((sub + pattern).skip(sub.len() as int) =~= pattern);
        }
    }
}

} // verus!
