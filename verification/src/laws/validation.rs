//! Laws of configuration validation.

use vstd::prelude::*;

use crate::config::cors::CorsPolicyKind;
use crate::config::defaults::Config;
use crate::config::security::AuthMode;
use crate::config::ssrf::SsrfMode;
use crate::config::validate::{
    binds_clients, extends, lemma_rate_limit_extends, lines, no_issues, IssueView, ReportView, TlsFiles,
};
use crate::laws::text::law_trim;
use crate::text::{is_white, trim};

verus! {

/// Whether an error at `path` is reported.
pub open spec fn has_error(report: ReportView, path: Seq<char>) -> bool {
    exists|i: int| 0 <= i < report.errors.len() && (#[trigger] report.errors[i]).path == path
}

/// Whether a warning at `path` is reported.
pub open spec fn has_warning(report: ReportView, path: Seq<char>) -> bool {
    exists|i: int| 0 <= i < report.warnings.len() && (#[trigger] report.warnings[i]).path == path
}

/// Whether something is wrong at `path`.
pub open spec fn error_due(cfg: Config, files: TlsFiles, path: Seq<char>) -> bool {
    let limits = cfg.rate_limit;
    ||| path == "cors.allow_credentials"@ && cfg.cors.policy == CorsPolicyKind::Wildcard
        && cfg.cors.allow_credentials
    ||| path == "cors.explicit"@ && cfg.cors.policy == CorsPolicyKind::Explicit
        && cfg.cors.explicit@.len() == 0
    ||| path == "limits.max_request_body_bytes"@ && cfg.limits.max_request_body_bytes == 0
    ||| path == "rate_limit"@ && limits.enabled && limits.origin.rps == 0 && limits.ip.rps
        == 0 && limits.target_host.rps == 0 && limits.global.rps == 0
        && limits.global.inflight_max == 0
    ||| path == "rate_limit.origin"@ + ".burst"@ && limits.enabled && limits.origin.rps > 0
        && limits.origin.burst == 0
    ||| path == "rate_limit.ip"@ + ".burst"@ && limits.enabled && limits.ip.rps > 0
        && limits.ip.burst == 0
    ||| path == "rate_limit.target_host"@ + ".burst"@ && limits.enabled
        && limits.target_host.rps > 0 && limits.target_host.burst == 0
    ||| path == "rate_limit.global"@ + ".burst"@ && limits.enabled && limits.global.rps > 0
        && limits.global.burst == 0
    ||| path == "upstream.pool_max_idle_per_host"@ && cfg.upstream.pool_max_idle_per_host
        == 0
    ||| path == "upstream.user_agent"@ && forall|i: int|
        0 <= i < cfg.upstream.user_agent@.len() ==> is_white(
            #[trigger] cfg.upstream.user_agent@[i],
        )
    ||| path == "server.tls.cert_path"@ && cfg.server.tls is Some && !files.cert_found
    ||| path == "server.tls.key_path"@ && cfg.server.tls is Some && !files.key_found
    ||| path == "security.require_client_binding"@ && cfg.security.require_client_binding
        && cfg.security.origin_whitelist@.len() == 0 && !(cfg.security.auth.mode
        == AuthMode::Bearer && cfg.security.auth.bearer_tokens@.len() > 0) && !(
    cfg.server.tls matches Some(tls) && tls.client_ca_path is Some)
}

/// Whether something at `path` is worth a look.
pub open spec fn warning_due(cfg: Config, path: Seq<char>) -> bool {
    let limits = cfg.rate_limit;
    ||| path == "cors.allow_private_network"@ && cfg.cors.allow_private_network
        && cfg.cors.policy != CorsPolicyKind::Explicit
    ||| path == "limits.connect_timeout"@ && cfg.limits.request_timeout.spec_nanos()
        <= cfg.limits.connect_timeout.spec_nanos()
    ||| path == "limits.max_redirects"@ && cfg.limits.max_redirects > 32
    ||| path == "rate_limit.origin"@ + ".burst"@ && limits.enabled && 0
        < limits.origin.burst < limits.origin.rps
    ||| path == "rate_limit.ip"@ + ".burst"@ && limits.enabled && 0 < limits.ip.burst
        < limits.ip.rps
    ||| path == "rate_limit.target_host"@ + ".burst"@ && limits.enabled && 0
        < limits.target_host.burst < limits.target_host.rps
    ||| path == "rate_limit.global"@ + ".burst"@ && limits.enabled && 0
        < limits.global.burst < limits.global.rps
    ||| path == "ssrf.mode"@ && (cfg.ssrf.mode matches SsrfMode::Permissive {
        allow_private,
    } && allow_private) && cfg.ssrf.extra_blocked_cidrs@.len() == 0
}

/// Whether a report tells of `path` what `before` tells of it, and an error or a
/// warning more where `e` or `w` says so.
spec fn adds(before: ReportView, after: ReportView, path: Seq<char>, e: bool, w: bool) -> bool {
    &&& has_error(after, path) <==> has_error(before, path) || e
    &&& has_warning(after, path) <==> has_warning(before, path) || w
}

proof fn lemma_error_if(
    report: ReportView,
    found: bool,
    at: Seq<char>,
    reason: Seq<char>,
    path: Seq<char>,
)
    ensures
        adds(report, report.error_if(found, at, reason), path, found && at == path, false),
{
    let after = report.error_if(found, at, reason);
    if found {
        assert(after.errors[report.errors.len() as int].path == at);
        if has_error(report, path) {
            let i = choose|i: int|
                0 <= i < report.errors.len() && (#[trigger] report.errors[i]).path == path;
            assert(after.errors[i].path == path);
        }
        if has_error(after, path) && at != path {
            let i = choose|i: int|
                0 <= i < after.errors.len() && (#[trigger] after.errors[i]).path == path;
            assert(report.errors[i].path == path);
        }
        if at == path {
            assert(has_error(after, path));
        }
    }
    assert(after.warnings == report.warnings);
    assert(has_warning(after, path) == has_warning(report, path));
}

proof fn lemma_warn_if(
    report: ReportView,
    found: bool,
    at: Seq<char>,
    reason: Seq<char>,
    path: Seq<char>,
)
    ensures
        adds(report, report.warn_if(found, at, reason), path, false, found && at == path),
{
    let after = report.warn_if(found, at, reason);
    if found {
        assert(after.warnings[report.warnings.len() as int].path == at);
        if has_warning(report, path) {
            let i = choose|i: int|
                0 <= i < report.warnings.len() && (#[trigger] report.warnings[i]).path == path;
            assert(after.warnings[i].path == path);
        }
        if has_warning(after, path) && at != path {
            let i = choose|i: int|
                0 <= i < after.warnings.len() && (#[trigger] after.warnings[i]).path == path;
            assert(report.warnings[i].path == path);
        }
        if at == path {
            assert(has_warning(after, path));
        }
    }
    assert(after.errors == report.errors);
    assert(has_error(after, path) == has_error(report, path));
}

/// What is wrong with the CORS policy: a wildcard with credentials, and an
/// explicit policy without origins; and a private network without an explicit
/// policy is worth a look.
pub proof fn law_cors_issues(report: ReportView, cfg: Config, path: Seq<char>)
    ensures
        has_error(report.after_cors(cfg), path) <==> has_error(report, path) || (path
            == "cors.allow_credentials"@ && cfg.cors.policy == CorsPolicyKind::Wildcard
            && cfg.cors.allow_credentials) || (path == "cors.explicit"@ && cfg.cors.policy
            == CorsPolicyKind::Explicit && cfg.cors.explicit@.len() == 0),
        has_warning(report.after_cors(cfg), path) <==> has_warning(report, path) || (path
            == "cors.allow_private_network"@ && cfg.cors.allow_private_network && cfg.cors.policy
            != CorsPolicyKind::Explicit),
{
    let r1 = "wildcard policy + allow_credentials=true is rejected by browsers; switch the policy to `reflect` or `explicit`"@;
    let r2 = "policy is `explicit` but no origins are listed; the proxy would reject every cross-origin request"@;
    let r3 = "Private Network Access should usually be paired with `policy = \"explicit\"` so that only known origins can reach the private network"@;
    let c1 = cfg.cors.policy == CorsPolicyKind::Wildcard && cfg.cors.allow_credentials;
    let c2 = cfg.cors.policy == CorsPolicyKind::Explicit && cfg.cors.explicit@.len() == 0;
    let c3 = cfg.cors.allow_private_network && cfg.cors.policy != CorsPolicyKind::Explicit;
    let a = report.error_if(c1, "cors.allow_credentials"@, r1);
    let b = a.error_if(c2, "cors.explicit"@, r2);
    lemma_error_if(report, c1, "cors.allow_credentials"@, r1, path);
    lemma_error_if(a, c2, "cors.explicit"@, r2, path);
    lemma_warn_if(b, c3, "cors.allow_private_network"@, r3, path);
}

/// What is wrong with the limits: no room for a body; and a connect timeout that
/// is not below the request timeout, or more than 32 redirects, is worth a look.
pub proof fn law_limit_issues(report: ReportView, cfg: Config, path: Seq<char>)
    ensures
        has_error(report.after_limits(cfg), path) <==> has_error(report, path) || (path
            == "limits.max_request_body_bytes"@ && cfg.limits.max_request_body_bytes == 0),
        has_warning(report.after_limits(cfg), path) <==> has_warning(report, path) || (path
            == "limits.connect_timeout"@ && cfg.limits.request_timeout.spec_nanos()
            <= cfg.limits.connect_timeout.spec_nanos()) || (path == "limits.max_redirects"@
            && cfg.limits.max_redirects > 32),
{
    let r1 = "connect_timeout >= request_timeout: the request budget will be exhausted before the upstream can respond"@;
    let r2 = "values above 32 are rarely useful and amplify resource consumption"@;
    let r3 = "must be > 0"@;
    let c1 = cfg.limits.connect_timeout.spec_nanos() >= cfg.limits.request_timeout.spec_nanos();
    let c2 = cfg.limits.max_redirects > 32;
    let a = report.warn_if(c1, "limits.connect_timeout"@, r1);
    let b = a.warn_if(c2, "limits.max_redirects"@, r2);
    lemma_warn_if(report, c1, "limits.connect_timeout"@, r1, path);
    lemma_warn_if(a, c2, "limits.max_redirects"@, r2, path);
    lemma_error_if(
        b,
        cfg.limits.max_request_body_bytes == 0,
        "limits.max_request_body_bytes"@,
        r3,
        path,
    );
}

/// What is wrong with one dimension of the rate limits: a rate without a burst
/// budget; and a budget below the rate is worth a look.
pub proof fn law_dimension_issues(
    report: ReportView,
    prefix: Seq<char>,
    rps: u32,
    burst: u32,
    path: Seq<char>,
)
    ensures
        has_error(report.after_dimension(prefix, rps, burst), path) <==> has_error(report, path) || (
        path == prefix + ".burst"@ && rps > 0 && burst == 0),
        has_warning(report.after_dimension(prefix, rps, burst), path) <==> has_warning(report, path)
            || (path == prefix + ".burst"@ && 0 < burst && burst < rps),
{
    let r1 = "must be > 0 when the dimension's rps is > 0"@;
    let r2 = "burst smaller than rps gives no headroom for bursty clients"@;
    let c1 = rps > 0 && burst == 0;
    let a = report.error_if(c1, prefix + ".burst"@, r1);
    lemma_error_if(report, c1, prefix + ".burst"@, r1, path);
    lemma_warn_if(a, rps > 0 && 0 < burst < rps, prefix + ".burst"@, r2, path);
}

/// What is wrong with the rate limits: that they are on with every dimension
/// off, or with a dimension whose rate has no burst budget.
pub proof fn law_rate_limit_issues(report: ReportView, cfg: Config, path: Seq<char>)
    ensures
        ({
            let limits = cfg.rate_limit;
            let after = report.after_rate_limit(limits);
            &&& !limits.enabled ==> after == report
            &&& limits.enabled ==> {
                &&& has_error(after, path) <==> {
                    ||| has_error(report, path)
                    ||| path == "rate_limit"@ && limits.origin.rps == 0 && limits.ip.rps == 0
                        && limits.target_host.rps == 0 && limits.global.rps == 0
                        && limits.global.inflight_max == 0
                    ||| path == "rate_limit.origin"@ + ".burst"@ && limits.origin.rps > 0
                        && limits.origin.burst == 0
                    ||| path == "rate_limit.ip"@ + ".burst"@ && limits.ip.rps > 0 && limits.ip.burst
                        == 0
                    ||| path == "rate_limit.target_host"@ + ".burst"@ && limits.target_host.rps > 0
                        && limits.target_host.burst == 0
                    ||| path == "rate_limit.global"@ + ".burst"@ && limits.global.rps > 0
                        && limits.global.burst == 0
                }
                &&& has_warning(after, path) <==> {
                    ||| has_warning(report, path)
                    ||| path == "rate_limit.origin"@ + ".burst"@ && 0 < limits.origin.burst
                        < limits.origin.rps
                    ||| path == "rate_limit.ip"@ + ".burst"@ && 0 < limits.ip.burst < limits.ip.rps
                    ||| path == "rate_limit.target_host"@ + ".burst"@ && 0
                        < limits.target_host.burst < limits.target_host.rps
                    ||| path == "rate_limit.global"@ + ".burst"@ && 0 < limits.global.burst
                        < limits.global.rps
                }
            }
        }),
{
    let limits = cfg.rate_limit;
    if limits.enabled {
        let r1 = "rate_limit.enabled = true but every dimension is at 0; either disable rate-limiting or set at least one of origin.rps / ip.rps / target_host.rps / global.rps / global.inflight_max"@;
        let c1 = limits.origin.rps == 0 && limits.ip.rps == 0 && limits.target_host.rps == 0
            && limits.global.rps == 0 && limits.global.inflight_max == 0;
        let s = report.error_if(c1, "rate_limit"@, r1);
        lemma_error_if(report, c1, "rate_limit"@, r1, path);
        let a = s.after_dimension("rate_limit.origin"@, limits.origin.rps, limits.origin.burst);
        law_dimension_issues(
            s,
            "rate_limit.origin"@,
            limits.origin.rps,
            limits.origin.burst,
            path,
        );
        let b = a.after_dimension("rate_limit.ip"@, limits.ip.rps, limits.ip.burst);
        law_dimension_issues(a, "rate_limit.ip"@, limits.ip.rps, limits.ip.burst, path);
        let c = b.after_dimension(
            "rate_limit.target_host"@,
            limits.target_host.rps,
            limits.target_host.burst,
        );
        law_dimension_issues(
            b,
            "rate_limit.target_host"@,
            limits.target_host.rps,
            limits.target_host.burst,
            path,
        );
        law_dimension_issues(
            c,
            "rate_limit.global"@,
            limits.global.rps,
            limits.global.burst,
            path,
        );
    }
}

/// What is wrong with the upstream client: no idle connections, or a user agent
/// of white space alone.
pub proof fn law_upstream_issues(report: ReportView, cfg: Config, path: Seq<char>)
    ensures
        has_error(report.after_upstream(cfg), path) <==> has_error(report, path) || (path
            == "upstream.pool_max_idle_per_host"@ && cfg.upstream.pool_max_idle_per_host == 0) || (
        path == "upstream.user_agent"@ && forall|i: int|
            0 <= i < cfg.upstream.user_agent@.len() ==> is_white(
                #[trigger] cfg.upstream.user_agent@[i],
            )),
        has_warning(report.after_upstream(cfg), path) <==> has_warning(report, path),
{
    let agent = cfg.upstream.user_agent@;
    let cut = law_trim(agent);
    if forall|i: int| 0 <= i < agent.len() ==> is_white(#[trigger] agent[i]) {
        if trim(agent).len() > 0 {
            assert(trim(agent)[0] == agent[cut.0]);
        }
    }
    let r1 = "must be > 0; setting to 0 disables connection reuse and collapses throughput"@;
    let c1 = cfg.upstream.pool_max_idle_per_host == 0;
    let a = report.error_if(c1, "upstream.pool_max_idle_per_host"@, r1);
    lemma_error_if(report, c1, "upstream.pool_max_idle_per_host"@, r1, path);
    lemma_error_if(
        a,
        trim(agent).len() == 0,
        "upstream.user_agent"@,
        "must be a non-empty token"@,
        path,
    );
}

/// What is wrong with TLS, where it is used: a file that is not there.
pub proof fn law_tls_issues(report: ReportView, cfg: Config, files: TlsFiles, path: Seq<char>)
    ensures
        has_error(report.after_tls(cfg, files), path) <==> has_error(report, path) || (
        cfg.server.tls is Some && ((path == "server.tls.cert_path"@ && !files.cert_found) || (path
            == "server.tls.key_path"@ && !files.key_found))),
        has_warning(report.after_tls(cfg, files), path) <==> has_warning(report, path),
{
    if let Some(tls) = cfg.server.tls {
        let r1 = "certificate file not found: "@ + tls.cert_path@;
        let r2 = "private key file not found: "@ + tls.key_path@;
        let a = report.error_if(!files.cert_found, "server.tls.cert_path"@, r1);
        lemma_error_if(report, !files.cert_found, "server.tls.cert_path"@, r1, path);
        lemma_error_if(a, !files.key_found, "server.tls.key_path"@, r2, path);
    }
}

/// What is worth a look in the SSRF protection: that it blocks nothing.
pub proof fn law_ssrf_issues(report: ReportView, cfg: Config, path: Seq<char>)
    ensures
        has_error(report.after_ssrf(cfg), path) <==> has_error(report, path),
        has_warning(report.after_ssrf(cfg), path) <==> has_warning(report, path) || (path
            == "ssrf.mode"@ && (cfg.ssrf.mode matches SsrfMode::Permissive { allow_private }
            && allow_private) && cfg.ssrf.extra_blocked_cidrs@.len() == 0),
{
    lemma_warn_if(
        report,
        cfg.ssrf.mode == (SsrfMode::Permissive { allow_private: true })
            && cfg.ssrf.extra_blocked_cidrs@.len() == 0,
        "ssrf.mode"@,
        "permissive mode with `allow_private=true` and no extra block list admits every IP, including AWS / GCP metadata. Add explicit `extra_blocked_cidrs` or switch to `strict` for production."@,
        path,
    );
}

/// What is wrong with the inbound guards: that clients must be bound, and none
/// of origins, tokens and certificates binds them.
pub proof fn law_security_issues(report: ReportView, cfg: Config, path: Seq<char>)
    ensures
        has_error(report.after_security(cfg), path) <==> has_error(report, path) || (path
            == "security.require_client_binding"@ && cfg.security.require_client_binding
            && cfg.security.origin_whitelist@.len() == 0 && !(cfg.security.auth.mode
            == AuthMode::Bearer && cfg.security.auth.bearer_tokens@.len() > 0) && !(
        cfg.server.tls matches Some(tls) && tls.client_ca_path is Some)),
        has_warning(report.after_security(cfg), path) <==> has_warning(report, path),
{
    lemma_error_if(
        report,
        cfg.security.require_client_binding && !binds_clients(cfg),
        "security.require_client_binding"@,
        "require_client_binding = true but clients are not bound; set security.origin_whitelist, bearer auth with at least one token, or server.tls.client_ca_path"@,
        path,
    );
}

/// A report holds an error at a place exactly where something is wrong there,
/// and so there is no error exactly where nothing is.
pub proof fn law_errors(cfg: Config, files: TlsFiles, path: Seq<char>)
    ensures
        has_error(ReportView::of(cfg, files), path) <==> error_due(cfg, files, path),
        ReportView::of(cfg, files).errors.len() > 0 ==> has_error(
            ReportView::of(cfg, files),
            ReportView::of(cfg, files).errors[0].path,
        ),
{
    lemma_issues(cfg, files, path);
    let all = ReportView::of(cfg, files);
    if all.errors.len() > 0 {
        assert(all.errors[0].path == all.errors[0].path);
    }
}

/// A report holds a warning at a place exactly where something there is worth a
/// look.
pub proof fn law_warnings(cfg: Config, files: TlsFiles, path: Seq<char>)
    ensures
        has_warning(ReportView::of(cfg, files), path) <==> warning_due(cfg, path),
{
    lemma_issues(cfg, files, path);
}

proof fn lemma_issues(cfg: Config, files: TlsFiles, path: Seq<char>)
    ensures
        has_error(ReportView::of(cfg, files), path) <==> error_due(cfg, files, path),
        has_warning(ReportView::of(cfg, files), path) <==> warning_due(cfg, path),
{
    let none = no_issues();
    assert(!has_error(none, path) && !has_warning(none, path));
    let a = none.after_cors(cfg);
    law_cors_issues(none, cfg, path);
    let b = a.after_limits(cfg);
    law_limit_issues(a, cfg, path);
    let c = b.after_rate_limit(cfg.rate_limit);
    law_rate_limit_issues(b, cfg, path);
    let d = c.after_upstream(cfg);
    law_upstream_issues(c, cfg, path);
    let e = d.after_tls(cfg, files);
    law_tls_issues(d, cfg, files, path);
    let f = e.after_ssrf(cfg);
    law_ssrf_issues(e, cfg, path);
    law_security_issues(f, cfg, path);
}

/// Where the first error of a report is.
pub open spec fn first_error(report: ReportView) -> Option<Seq<char>> {
    if report.errors.len() > 0 {
        Some(report.errors[0].path)
    } else {
        None
    }
}

/// An error that is reported stays where it is: what is looked at later comes
/// behind it.
pub proof fn law_errors_stay_in_front(report: ReportView, cfg: Config, files: TlsFiles)
    requires
        report.errors.len() > 0,
    ensures
        first_error(report.after_limits(cfg)) == first_error(report),
        first_error(report.after_rate_limit(cfg.rate_limit)) == first_error(report),
        first_error(report.after_upstream(cfg)) == first_error(report),
        first_error(report.after_tls(cfg, files)) == first_error(report),
        first_error(report.after_ssrf(cfg)) == first_error(report),
        first_error(report.after_security(cfg)) == first_error(report),
{
    lemma_rate_limit_extends(report, cfg.rate_limit);
}

/// The first error, which stops the start, is that of the first part in which
/// something is wrong: the CORS policy, the limits, the rate limits, the
/// upstream client, TLS, the inbound guards.
pub proof fn law_first_error(cfg: Config, files: TlsFiles)
    ensures
        ({
            let cors = no_issues().after_cors(cfg);
            let limits = cors.after_limits(cfg);
            let rates = limits.after_rate_limit(cfg.rate_limit);
            let upstream = rates.after_upstream(cfg);
            let tls = upstream.after_tls(cfg, files);
            first_error(ReportView::of(cfg, files)) == if cors.errors.len() > 0 {
                first_error(cors)
            } else if limits.errors.len() > 0 {
                first_error(limits)
            } else if rates.errors.len() > 0 {
                first_error(rates)
            } else if upstream.errors.len() > 0 {
                first_error(upstream)
            } else if tls.errors.len() > 0 {
                first_error(tls)
            } else {
                first_error(tls.after_ssrf(cfg).after_security(cfg))
            }
        }),
{
    let cors = no_issues().after_cors(cfg);
    let limits = cors.after_limits(cfg);
    let rates = limits.after_rate_limit(cfg.rate_limit);
    let upstream = rates.after_upstream(cfg);
    let tls = upstream.after_tls(cfg, files);
    lemma_rate_limit_extends(limits, cfg.rate_limit);
    assert(extends(cors, limits));
    assert(extends(limits, rates));
    assert(extends(rates, upstream));
    assert(extends(upstream, tls));
    assert(extends(tls, tls.after_ssrf(cfg).after_security(cfg)));
}

/// The issues of TLS tell the file that is not there.
pub proof fn law_missing_files_are_named(report: ReportView, cfg: Config, files: TlsFiles)
    ensures
        cfg.server.tls matches Some(tls) ==> {
            let after = report.after_tls(cfg, files).errors;
            &&& !files.key_found ==> after.last().path == "server.tls.key_path"@
                && after.last().reason == "private key file not found: "@ + tls.key_path@
            &&& !files.cert_found ==> after[report.errors.len() as int].path
                == "server.tls.cert_path"@ && after[report.errors.len() as int].reason
                == "certificate file not found: "@ + tls.cert_path@
        },
{
}

/// A report is shown with a line for each issue, errors first and in order.
pub proof fn law_lines(list: Seq<IssueView>, issue: IssueView, label: Seq<char>)
    ensures
        lines(Seq::<IssueView>::empty(), label) == Seq::<char>::empty(),
        lines(list.push(issue), label) == lines(list, label) + label + "invalid configuration at `"@
            + issue.path + "`: "@ + issue.reason + "\n"@,
{
    assert(list.push(issue).drop_last() =~= list);
    assert(lines(list.push(issue), label) =~= lines(list, label) + label
        + "invalid configuration at `"@ + issue.path + "`: "@ + issue.reason + "\n"@);
}

} // verus!
