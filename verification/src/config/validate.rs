//! Configuration validation.
//!
//! Combinations that are unsafe or cannot work are found before the proxy
//! starts. Every issue names the place in the configuration and the reason.

use vstd::prelude::*;

use crate::config::cors::CorsPolicyKind;
use crate::config::defaults::Config;
use crate::config::rate_limit::RateLimitConfig;
use crate::config::security::AuthMode;
use crate::config::ssrf::SsrfMode;
use crate::text::{concat, concat3, trim, trimmed};

verus! {

/// An issue in the configuration.
#[derive(Clone, Debug, PartialEq, Eq)]
pub struct ConfigError {
    /// Where in the configuration, separated by dots.
    pub path: String,
    /// Why the value is rejected.
    pub reason: String,
}

/// The mathematical content of a [`ConfigError`].
pub struct IssueView {
    /// Where in the configuration.
    pub path: Seq<char>,
    /// Why the value is rejected.
    pub reason: Seq<char>,
}

impl View for ConfigError {
    type V = IssueView;

    open spec fn view(&self) -> IssueView {
        IssueView { path: self.path@, reason: self.reason@ }
    }
}

impl IssueView {
    /// The text of the issue.
    pub open spec fn message(self) -> Seq<char> {
        "invalid configuration at `"@ + self.path + "`: "@ + self.reason
    }
}

impl ConfigError {
    /// An issue at `path` for `reason`.
    pub fn new(path: &str, reason: &str) -> (r: ConfigError)
        ensures
            r@ == (IssueView { path: path@, reason: reason@ }),
    {
        ConfigError { path: path.to_owned(), reason: reason.to_owned() }
    }

    /// The text of the issue.
    pub fn message(&self) -> (r: String)
        ensures
            r@ == self@.message(),
    {
        let head = concat3("invalid configuration at `", self.path.as_str(), "`: ");
        concat(head.as_str(), self.reason.as_str())
    }
}

/// Every issue of one validation, so that several can be mended at once.
#[derive(Clone, Debug, PartialEq, Eq)]
pub struct ValidationReport {
    /// What must be mended before the proxy can start.
    pub errors: Vec<ConfigError>,
    /// What should be looked at.
    pub warnings: Vec<ConfigError>,
}

/// The mathematical content of a [`ValidationReport`].
pub struct ReportView {
    /// What must be mended.
    pub errors: Seq<IssueView>,
    /// What should be looked at.
    pub warnings: Seq<IssueView>,
}

/// The views of a list of issues.
pub open spec fn issues(list: Seq<ConfigError>) -> Seq<IssueView> {
    list.map_values(|e: ConfigError| e@)
}

impl View for ValidationReport {
    type V = ReportView;

    open spec fn view(&self) -> ReportView {
        ReportView { errors: issues(self.errors@), warnings: issues(self.warnings@) }
    }
}

/// One line for each issue, with `label` in front.
pub open spec fn lines(list: Seq<IssueView>, label: Seq<char>) -> Seq<char>
    decreases list.len(),
{
    if list.len() == 0 {
        Seq::empty()
    } else {
        lines(list.drop_last(), label) + label + list.last().message() + "\n"@
    }
}

/// The report of a configuration without issues.
pub open spec fn no_issues() -> ReportView {
    ReportView { errors: Seq::empty(), warnings: Seq::empty() }
}

/// Whether the proxy is bound to known clients: by a list of origins, by
/// bearer tokens, or by client certificates.
pub open spec fn binds_clients(cfg: Config) -> bool {
    ||| cfg.security.origin_whitelist@.len() > 0
    ||| cfg.security.auth.mode == AuthMode::Bearer && cfg.security.auth.bearer_tokens@.len() > 0
    ||| cfg.server.tls matches Some(tls) && tls.client_ca_path is Some
}

impl ReportView {
    /// The report with an error more, where `found`.
    pub open spec fn error_if(
        self,
        found: bool,
        path: Seq<char>,
        reason: Seq<char>,
    ) -> ReportView {
        if found {
            ReportView { errors: self.errors.push(IssueView { path, reason }), ..self }
        } else {
            self
        }
    }

    /// The report with a warning more, where `found`.
    pub open spec fn warn_if(
        self,
        found: bool,
        path: Seq<char>,
        reason: Seq<char>,
    ) -> ReportView {
        if found {
            ReportView { warnings: self.warnings.push(IssueView { path, reason }), ..self }
        } else {
            self
        }
    }

    /// The report with the issues of the CORS policy.
    pub open spec fn after_cors(self, cfg: Config) -> ReportView {
        self.error_if(
            cfg.cors.policy == CorsPolicyKind::Wildcard && cfg.cors.allow_credentials,
            "cors.allow_credentials"@,
            "wildcard policy + allow_credentials=true is rejected by browsers; switch the policy to `reflect` or `explicit`"@,
        ).error_if(
            cfg.cors.policy == CorsPolicyKind::Explicit && cfg.cors.explicit@.len() == 0,
            "cors.explicit"@,
            "policy is `explicit` but no origins are listed; the proxy would reject every cross-origin request"@,
        ).warn_if(
            cfg.cors.allow_private_network && cfg.cors.policy != CorsPolicyKind::Explicit,
            "cors.allow_private_network"@,
            "Private Network Access should usually be paired with `policy = \"explicit\"` so that only known origins can reach the private network"@,
        )
    }

    /// The report with the issues of the limits.
    pub open spec fn after_limits(self, cfg: Config) -> ReportView {
        self.warn_if(
            cfg.limits.connect_timeout.spec_nanos() >= cfg.limits.request_timeout.spec_nanos(),
            "limits.connect_timeout"@,
            "connect_timeout >= request_timeout: the request budget will be exhausted before the upstream can respond"@,
        ).warn_if(
            cfg.limits.max_redirects > 32,
            "limits.max_redirects"@,
            "values above 32 are rarely useful and amplify resource consumption"@,
        ).error_if(
            cfg.limits.max_request_body_bytes == 0,
            "limits.max_request_body_bytes"@,
            "must be > 0"@,
        )
    }

    /// The report with the issues of a dimension that is on: its burst budget
    /// must not be empty, and should not be smaller than its rate.
    pub open spec fn after_dimension(self, prefix: Seq<char>, rps: u32, burst: u32) -> ReportView {
        self.error_if(
            rps > 0 && burst == 0,
            prefix + ".burst"@,
            "must be > 0 when the dimension's rps is > 0"@,
        ).warn_if(
            rps > 0 && 0 < burst < rps,
            prefix + ".burst"@,
            "burst smaller than rps gives no headroom for bursty clients"@,
        )
    }

    /// The report with the issues of the rate limits, where they are on.
    pub open spec fn after_rate_limit(self, cfg: RateLimitConfig) -> ReportView {
        if !cfg.enabled {
            self
        } else {
            self.error_if(
                cfg.origin.rps == 0 && cfg.ip.rps == 0 && cfg.target_host.rps == 0
                    && cfg.global.rps == 0 && cfg.global.inflight_max == 0,
                "rate_limit"@,
                "rate_limit.enabled = true but every dimension is at 0; either disable rate-limiting or set at least one of origin.rps / ip.rps / target_host.rps / global.rps / global.inflight_max"@,
            ).after_dimension("rate_limit.origin"@, cfg.origin.rps, cfg.origin.burst).after_dimension(
                "rate_limit.ip"@,
                cfg.ip.rps,
                cfg.ip.burst,
            ).after_dimension(
                "rate_limit.target_host"@,
                cfg.target_host.rps,
                cfg.target_host.burst,
            ).after_dimension("rate_limit.global"@, cfg.global.rps, cfg.global.burst)
        }
    }

    /// The report with the issues of the upstream client.
    pub open spec fn after_upstream(self, cfg: Config) -> ReportView {
        self.error_if(
            cfg.upstream.pool_max_idle_per_host == 0,
            "upstream.pool_max_idle_per_host"@,
            "must be > 0; setting to 0 disables connection reuse and collapses throughput"@,
        ).error_if(
            trim(cfg.upstream.user_agent@).len() == 0,
            "upstream.user_agent"@,
            "must be a non-empty token"@,
        )
    }

    /// The report with the issues of TLS, where it is used.
    pub open spec fn after_tls(self, cfg: Config, files: TlsFiles) -> ReportView {
        match cfg.server.tls {
            None => self,
            Some(tls) => self.error_if(
                !files.cert_found,
                "server.tls.cert_path"@,
                "certificate file not found: "@ + tls.cert_path@,
            ).error_if(
                !files.key_found,
                "server.tls.key_path"@,
                "private key file not found: "@ + tls.key_path@,
            ),
        }
    }

    /// The report with the issues of the SSRF protection.
    pub open spec fn after_ssrf(self, cfg: Config) -> ReportView {
        self.warn_if(
            cfg.ssrf.mode == (SsrfMode::Permissive { allow_private: true })
                && cfg.ssrf.extra_blocked_cidrs@.len() == 0,
            "ssrf.mode"@,
            "permissive mode with `allow_private=true` and no extra block list admits every IP, including AWS / GCP metadata. Add explicit `extra_blocked_cidrs` or switch to `strict` for production."@,
        )
    }

    /// The report with the issues of the inbound guards.
    pub open spec fn after_security(self, cfg: Config) -> ReportView {
        self.error_if(
            cfg.security.require_client_binding && !binds_clients(cfg),
            "security.require_client_binding"@,
            "require_client_binding = true but clients are not bound; set security.origin_whitelist, bearer auth with at least one token, or server.tls.client_ca_path"@,
        )
    }

    /// The report on a configuration.
    pub open spec fn of(cfg: Config, files: TlsFiles) -> ReportView {
        no_issues().after_cors(cfg).after_limits(cfg).after_rate_limit(
            cfg.rate_limit,
        ).after_upstream(cfg).after_tls(cfg, files).after_ssrf(cfg).after_security(cfg)
    }
}

/// Which files that the TLS configuration names are there.
#[derive(Clone, Copy, Debug, PartialEq, Eq, Structural)]
pub struct TlsFiles {
    /// The certificate chain.
    pub cert_found: bool,
    /// The private key.
    pub key_found: bool,
}

impl Default for ValidationReport {
    fn default() -> (r: ValidationReport)
        ensures
            r@ == no_issues(),
    {
        let r = ValidationReport { errors: Vec::new(), warnings: Vec::new() };
        assert(issues(r.errors@) =~= Seq::<IssueView>::empty());
        assert(issues(r.warnings@) =~= Seq::<IssueView>::empty());
        r
    }
}

/// One line for each issue.
fn render_lines(list: &Vec<ConfigError>, label: &str) -> (r: String)
    ensures
        r@ == lines(issues(list@), label@),
{
    let mut out = String::new();
    let ghost all = issues(list@);
    let mut i: usize = 0;
    while i < list.len()
        invariant
            i <= list@.len(),
            all == issues(list@),
            out@ == lines(all.take(i as int), label@),
        decreases list@.len() - i,
    {
        proof {
            assert(all.take(i + 1).drop_last() == all.take(i as int));
            assert(all.take(i + 1).last() == list@[i as int]@);
        }
        let message = list[i].message();
        out.append(label);
        out.append(message.as_str());
        out.append("\n");
        i += 1;
    }
    proof {
        assert(all.take(i as int) == all);
    }
    out
}

impl ValidationReport {
    /// Whether there is an error in the report.
    pub fn has_errors(&self) -> (r: bool)
        ensures
            r == (self@.errors.len() > 0),
    {
        self.errors.len() > 0
    }

    /// The report as text: errors first, a line for each issue.
    pub fn render(&self) -> (r: String)
        ensures
            r@ == lines(self@.errors, "ERROR "@) + lines(self@.warnings, "WARN  "@),
    {
        let errors = render_lines(&self.errors, "ERROR ");
        let warnings = render_lines(&self.warnings, "WARN  ");
        concat(errors.as_str(), warnings.as_str())
    }

    fn error(&mut self, path: &str, reason: &str)
        ensures
            final(self)@ == old(self)@.error_if(true, path@, reason@),
    {
        let ghost before = self.errors@;
        self.errors.push(ConfigError::new(path, reason));
        proof {
            assert(issues(self.errors@) =~= issues(before).push(
                IssueView { path: path@, reason: reason@ },
            ));
        }
    }

    fn warn(&mut self, path: &str, reason: &str)
        ensures
            final(self)@ == old(self)@.warn_if(true, path@, reason@),
    {
        let ghost before = self.warnings@;
        self.warnings.push(ConfigError::new(path, reason));
        proof {
            assert(issues(self.warnings@) =~= issues(before).push(
                IssueView { path: path@, reason: reason@ },
            ));
        }
    }
}

fn validate_cors(cfg: &Config, report: &mut ValidationReport)
    ensures
        final(report)@ == old(report)@.after_cors(*cfg),
{
    if cfg.cors.policy == CorsPolicyKind::Wildcard && cfg.cors.allow_credentials {
        report.error(
            "cors.allow_credentials",
            "wildcard policy + allow_credentials=true is rejected by browsers; switch the policy to `reflect` or `explicit`",
        );
    }
    if cfg.cors.policy == CorsPolicyKind::Explicit && cfg.cors.explicit.len() == 0 {
        report.error(
            "cors.explicit",
            "policy is `explicit` but no origins are listed; the proxy would reject every cross-origin request",
        );
    }
    if cfg.cors.allow_private_network && cfg.cors.policy != CorsPolicyKind::Explicit {
        report.warn(
            "cors.allow_private_network",
            "Private Network Access should usually be paired with `policy = \"explicit\"` so that only known origins can reach the private network",
        );
    }
}

fn validate_limits(cfg: &Config, report: &mut ValidationReport)
    ensures
        final(report)@ == old(report)@.after_limits(*cfg),
{
    if cfg.limits.connect_timeout.as_nanos() >= cfg.limits.request_timeout.as_nanos() {
        report.warn(
            "limits.connect_timeout",
            "connect_timeout >= request_timeout: the request budget will be exhausted before the upstream can respond",
        );
    }
    if cfg.limits.max_redirects > 32 {
        report.warn(
            "limits.max_redirects",
            "values above 32 are rarely useful and amplify resource consumption",
        );
    }
    if cfg.limits.max_request_body_bytes == 0 {
        report.error("limits.max_request_body_bytes", "must be > 0");
    }
}

fn validate_rate_limit(cfg: &RateLimitConfig, report: &mut ValidationReport)
    ensures
        final(report)@ == old(report)@.after_rate_limit(*cfg),
{
    if !cfg.enabled {
        return ;
    }
    let any_enabled = cfg.origin.rps > 0 || cfg.ip.rps > 0 || cfg.target_host.rps > 0
        || cfg.global.rps > 0 || cfg.global.inflight_max > 0;
    if !any_enabled {
        report.error(
            "rate_limit",
            "rate_limit.enabled = true but every dimension is at 0; either disable rate-limiting or set at least one of origin.rps / ip.rps / target_host.rps / global.rps / global.inflight_max",
        );
    }
    check_dimension(report, "rate_limit.origin", cfg.origin.rps, cfg.origin.burst);
    check_dimension(report, "rate_limit.ip", cfg.ip.rps, cfg.ip.burst);
    check_dimension(report, "rate_limit.target_host", cfg.target_host.rps, cfg.target_host.burst);
    check_dimension(report, "rate_limit.global", cfg.global.rps, cfg.global.burst);
}

fn check_dimension(report: &mut ValidationReport, prefix: &'static str, rps: u32, burst: u32)
    ensures
        final(report)@ == old(report)@.after_dimension(prefix@, rps, burst),
{
    if rps == 0 {
        return ;
    }
    let path = concat(prefix, ".burst");
    if burst == 0 {
        report.error(path.as_str(), "must be > 0 when the dimension's rps is > 0");
    } else if burst < rps {
        report.warn(
            path.as_str(),
            "burst smaller than rps gives no headroom for bursty clients",
        );
    }
}

fn validate_upstream(cfg: &Config, report: &mut ValidationReport)
    ensures
        final(report)@ == old(report)@.after_upstream(*cfg),
{
    if cfg.upstream.pool_max_idle_per_host == 0 {
        report.error(
            "upstream.pool_max_idle_per_host",
            "must be > 0; setting to 0 disables connection reuse and collapses throughput",
        );
    }
    let agent = trimmed(cfg.upstream.user_agent.as_str());
    if agent.as_str().is_empty() {
        report.error("upstream.user_agent", "must be a non-empty token");
    }
}

fn validate_tls(cfg: &Config, files: TlsFiles, report: &mut ValidationReport)
    ensures
        final(report)@ == old(report)@.after_tls(*cfg, files),
{
    if let Some(tls) = &cfg.server.tls {
        if !files.cert_found {
            let reason = concat("certificate file not found: ", tls.cert_path.as_str());
            report.error("server.tls.cert_path", reason.as_str());
        }
        if !files.key_found {
            let reason = concat("private key file not found: ", tls.key_path.as_str());
            report.error("server.tls.key_path", reason.as_str());
        }
    }
}

fn validate_ssrf(cfg: &Config, report: &mut ValidationReport)
    ensures
        final(report)@ == old(report)@.after_ssrf(*cfg),
{
    if cfg.ssrf.mode.admits_private() && cfg.ssrf.extra_blocked_cidrs.len() == 0 {
        report.warn(
            "ssrf.mode",
            "permissive mode with `allow_private=true` and no extra block list admits every IP, including AWS / GCP metadata. Add explicit `extra_blocked_cidrs` or switch to `strict` for production.",
        );
    }
}

fn validate_security(cfg: &Config, report: &mut ValidationReport)
    ensures
        final(report)@ == old(report)@.after_security(*cfg),
{
    let by_certificate = match &cfg.server.tls {
        Some(tls) => tls.client_ca_path.is_some(),
        None => false,
    };
    let by_token = cfg.security.auth.mode == AuthMode::Bearer
        && cfg.security.auth.bearer_tokens.len() > 0;
    let bound = cfg.security.origin_whitelist.len() > 0 || by_token || by_certificate;
    if cfg.security.require_client_binding && !bound {
        report.error(
            "security.require_client_binding",
            "require_client_binding = true but clients are not bound; set security.origin_whitelist, bearer auth with at least one token, or server.tls.client_ca_path",
        );
    }
}

impl Config {
    /// Validates the configuration, given which TLS files are there, and
    /// returns the first error.
    pub fn validate(&self, files: TlsFiles) -> (r: Result<(), ConfigError>)
        ensures
            match r {
                Ok(()) => ReportView::of(*self, files).errors.len() == 0,
                Err(err) => ReportView::of(*self, files).errors.len() > 0 && err@
                    == ReportView::of(*self, files).errors[0],
            },
    {
        let mut report = self.validate_full(files);
        if report.errors.len() > 0 {
            let ghost all = issues(report.errors@);
            assert(all[0] == report.errors@[0]@);
            return Err(report.errors.remove(0));
        }
        Ok(())
    }

    /// Every issue of the configuration, errors and warnings, given which TLS
    /// files are there.
    pub fn validate_full(&self, files: TlsFiles) -> (r: ValidationReport)
        ensures
            r@ == ReportView::of(*self, files),
    {
        let mut report = ValidationReport::default();
        validate_cors(self, &mut report);
        validate_limits(self, &mut report);
        validate_rate_limit(&self.rate_limit, &mut report);
        validate_upstream(self, &mut report);
        validate_tls(self, files, &mut report);
        validate_ssrf(self, &mut report);
        validate_security(self, &mut report);
        report
    }
}

/// The defaults have no issues, whatever files there are.
pub proof fn law_defaults_are_clean(cfg: Config, files: TlsFiles)
    requires
        cfg.is_default(),
    ensures
        ReportView::of(cfg, files) == no_issues(),
{
    reveal_strlit("corx/0.2.0");
    let agent = cfg.upstream.user_agent@;
    assert(agent.len() == 10);
    assert(agent[0] == 'c');
    assert(agent.last() == '0');
    assert(trim(agent) == agent);
}

/// Whether `later` has the errors of `earlier` in front of its own.
pub open spec fn extends(earlier: ReportView, later: ReportView) -> bool {
    &&& earlier.errors.len() <= later.errors.len()
    &&& forall|i: int| 0 <= i < earlier.errors.len() ==> later.errors[i] == earlier.errors[i]
}

pub(crate) proof fn lemma_rate_limit_extends(report: ReportView, cfg: RateLimitConfig)
    ensures
        extends(report, report.after_rate_limit(cfg)),
{
    if cfg.enabled {
        let none = cfg.origin.rps == 0 && cfg.ip.rps == 0 && cfg.target_host.rps == 0
            && cfg.global.rps == 0 && cfg.global.inflight_max == 0;
        let start = report.error_if(
            none,
            "rate_limit"@,
            "rate_limit.enabled = true but every dimension is at 0; either disable rate-limiting or set at least one of origin.rps / ip.rps / target_host.rps / global.rps / global.inflight_max"@,
        );
        assert(extends(report, start));
        let a = start.after_dimension("rate_limit.origin"@, cfg.origin.rps, cfg.origin.burst);
        assert(extends(start, a));
        let b = a.after_dimension("rate_limit.ip"@, cfg.ip.rps, cfg.ip.burst);
        assert(extends(a, b));
        let c = b.after_dimension(
            "rate_limit.target_host"@,
            cfg.target_host.rps,
            cfg.target_host.burst,
        );
        assert(extends(b, c));
        let d = c.after_dimension("rate_limit.global"@, cfg.global.rps, cfg.global.burst);
        assert(extends(c, d));
    }
}

/// The issues of the CORS policy come first: whatever else is wrong, the first
/// error is theirs where there is one.
pub proof fn law_cors_errors_come_first(cfg: Config, files: TlsFiles)
    ensures
        extends(no_issues().after_cors(cfg), ReportView::of(cfg, files)),
{
    let a = no_issues().after_cors(cfg);
    let b = a.after_limits(cfg);
    assert(extends(a, b));
    let c = b.after_rate_limit(cfg.rate_limit);
    lemma_rate_limit_extends(b, cfg.rate_limit);
    let d = c.after_upstream(cfg);
    assert(extends(c, d));
    let e = d.after_tls(cfg, files);
    assert(extends(d, e));
    let f = e.after_ssrf(cfg);
    assert(extends(e, f));
    let g = f.after_security(cfg);
    assert(extends(f, g));
}

/// A wildcard together with credentials is always an error, the first one.
pub proof fn law_wildcard_with_credentials_rejected(cfg: Config, files: TlsFiles)
    requires
        cfg.cors.policy == CorsPolicyKind::Wildcard,
        cfg.cors.allow_credentials,
    ensures
        ReportView::of(cfg, files).errors.len() > 0,
        ReportView::of(cfg, files).errors[0].path == "cors.allow_credentials"@,
{
    law_cors_errors_come_first(cfg, files);
    let a = no_issues().after_cors(cfg);
    assert(a.errors[0].path == "cors.allow_credentials"@);
}

/// A proxy that must be bound to known clients starts only where it is: with
/// the flag set and nothing that binds them, validation finds an error.
pub proof fn law_unbound_clients_rejected(cfg: Config, files: TlsFiles)
    requires
        cfg.security.require_client_binding,
        !binds_clients(cfg),
    ensures
        ReportView::of(cfg, files).errors.len() > 0,
        ReportView::of(cfg, files).errors.last().path == "security.require_client_binding"@,
{
}

} // verus!
