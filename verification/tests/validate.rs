//! Configuration defaults and validation.

use corx::config::tls::default_alpn_protocols;
use corx::config::{
    AuthMode, Config, CorsPolicyKind, LogFormat, OtelProtocol, PreflightMode, RedirectPolicy,
    ServerConfig, SsrfMode, TargetMode, TlsConfig, TlsFiles,
};
use corx::net::IpAddr;
use corx::time::Duration;

fn base() -> Config {
    Config::defaults()
}

fn all_found() -> TlsFiles {
    TlsFiles { cert_found: true, key_found: true }
}

#[test]
fn defaults_validate_clean() {
    let report = base().validate_full(all_found());
    assert!(!report.has_errors(), "{}", report.render());
}

#[test]
fn wildcard_with_credentials_is_rejected() {
    let mut cfg = base();
    cfg.cors.policy = CorsPolicyKind::Wildcard;
    cfg.cors.allow_credentials = true;
    let err = cfg.validate(all_found()).unwrap_err();
    assert_eq!(err.path, "cors.allow_credentials");
}

#[test]
fn explicit_without_origins_is_rejected() {
    let mut cfg = base();
    cfg.cors.policy = CorsPolicyKind::Explicit;
    cfg.cors.explicit = Vec::new();
    let err = cfg.validate(all_found()).unwrap_err();
    assert_eq!(err.path, "cors.explicit");
}

#[test]
fn rate_limit_enabled_with_all_dimensions_zero_is_rejected() {
    let mut cfg = base();
    cfg.rate_limit.enabled = true;
    cfg.rate_limit.origin.rps = 0;
    cfg.rate_limit.ip.rps = 0;
    cfg.rate_limit.target_host.rps = 0;
    cfg.rate_limit.global.rps = 0;
    cfg.rate_limit.global.inflight_max = 0;
    let err = cfg.validate(all_found()).unwrap_err();
    assert_eq!(err.path, "rate_limit");
}

#[test]
fn rate_limit_dimension_with_zero_burst_is_rejected() {
    let mut cfg = base();
    cfg.rate_limit.enabled = true;
    cfg.rate_limit.origin.rps = 10;
    cfg.rate_limit.origin.burst = 0;
    let err = cfg.validate(all_found()).unwrap_err();
    assert_eq!(err.path, "rate_limit.origin.burst");
}

#[test]
fn pool_max_idle_zero_is_rejected() {
    let mut cfg = base();
    cfg.upstream.pool_max_idle_per_host = 0;
    let err = cfg.validate(all_found()).unwrap_err();
    assert_eq!(err.path, "upstream.pool_max_idle_per_host");
}

#[test]
fn missing_tls_cert_is_rejected() {
    let mut cfg = base();
    cfg.server = ServerConfig {
        tls: Some(TlsConfig {
            cert_path: "/does/not/exist.pem".into(),
            key_path: "/does/not/exist.key".into(),
            client_ca_path: None,
            alpn_protocols: vec!["h2".into(), "http/1.1".into()],
        }),
        ..cfg.server
    };
    let report = cfg.validate_full(TlsFiles { cert_found: false, key_found: false });
    assert!(report.has_errors());
    let paths: Vec<&str> = report.errors.iter().map(|e| e.path.as_str()).collect();
    assert!(paths.contains(&"server.tls.cert_path"));
    assert!(paths.contains(&"server.tls.key_path"));
    assert_eq!(
        report.errors[0].message(),
        "invalid configuration at `server.tls.cert_path`: \
         certificate file not found: /does/not/exist.pem"
    );
    assert!(!cfg.validate_full(all_found()).has_errors());
}

#[test]
fn defaults_have_no_warnings_and_no_text() {
    let report = base().validate_full(TlsFiles { cert_found: false, key_found: false });
    assert!(report.warnings.is_empty());
    assert_eq!(report.render(), "");
    assert!(base().validate(all_found()).is_ok());
}

#[test]
fn limits_are_checked() {
    let mut cfg = base();
    cfg.limits.max_request_body_bytes = 0;
    cfg.limits.max_redirects = 33;
    cfg.limits.connect_timeout = Duration::from_secs(60);
    let report = cfg.validate_full(all_found());
    assert_eq!(report.errors[0].path, "limits.max_request_body_bytes");
    assert_eq!(report.errors[0].reason, "must be > 0");
    let paths: Vec<&str> = report.warnings.iter().map(|e| e.path.as_str()).collect();
    assert_eq!(paths, vec!["limits.connect_timeout", "limits.max_redirects"]);
}

#[test]
fn small_bursts_are_a_warning() {
    let mut cfg = base();
    cfg.rate_limit.enabled = true;
    cfg.rate_limit.ip.burst = 29;
    cfg.rate_limit.target_host.rps = 0;
    cfg.rate_limit.target_host.burst = 0;
    let report = cfg.validate_full(all_found());
    assert!(!report.has_errors());
    assert_eq!(report.warnings.len(), 1);
    assert_eq!(report.warnings[0].path, "rate_limit.ip.burst");
    assert_eq!(
        report.render(),
        "WARN  invalid configuration at `rate_limit.ip.burst`: \
         burst smaller than rps gives no headroom for bursty clients\n"
    );
}

#[test]
fn blank_user_agents_are_rejected() {
    let mut cfg = base();
    cfg.upstream.user_agent = " \t\u{2003}".into();
    let report = cfg.validate_full(all_found());
    assert_eq!(
        report.render(),
        "ERROR invalid configuration at `upstream.user_agent`: must be a non-empty token\n"
    );
}

#[test]
fn private_network_and_permissive_mode_are_warned_about() {
    let mut cfg = base();
    cfg.cors.allow_private_network = true;
    cfg.ssrf.mode = SsrfMode::Permissive { allow_private: true };
    let report = cfg.validate_full(all_found());
    let paths: Vec<&str> = report.warnings.iter().map(|e| e.path.as_str()).collect();
    assert_eq!(paths, vec!["cors.allow_private_network", "ssrf.mode"]);
    cfg.cors.policy = CorsPolicyKind::Explicit;
    cfg.cors.explicit = vec!["https://a.test".into()];
    cfg.ssrf.mode = SsrfMode::Permissive { allow_private: false };
    assert!(cfg.validate_full(all_found()).warnings.is_empty());
}

#[test]
fn cors_errors_come_before_all_others() {
    let mut cfg = base();
    cfg.cors.policy = CorsPolicyKind::Wildcard;
    cfg.cors.allow_credentials = true;
    cfg.upstream.pool_max_idle_per_host = 0;
    cfg.rate_limit.enabled = true;
    cfg.rate_limit.global.burst = 0;
    let report = cfg.validate_full(all_found());
    let paths: Vec<&str> = report.errors.iter().map(|e| e.path.as_str()).collect();
    assert_eq!(
        paths,
        vec![
            "cors.allow_credentials",
            "rate_limit.global.burst",
            "upstream.pool_max_idle_per_host",
        ]
    );
}

#[test]
fn defaults_are_as_documented() {
    let cfg = Config::default();
    assert_eq!(cfg.server.bind.ip, IpAddr::v4(0, 0, 0, 0));
    assert_eq!(cfg.server.bind.port, 8080);
    assert!(cfg.server.http2 && cfg.server.tls.is_none() && cfg.server.workers == 0);
    assert_eq!(cfg.server.graceful_shutdown.as_secs(), 30);
    assert_eq!(cfg.limits.max_request_body_bytes, 10_485_760);
    assert_eq!(cfg.limits.max_request_header_bytes, 32_768);
    assert_eq!(cfg.limits.request_timeout.as_secs(), 60);
    assert_eq!(cfg.limits.connect_timeout.as_secs(), 10);
    assert_eq!(cfg.limits.max_redirects, 5);
    assert_eq!(cfg.limits.redirect_policy, RedirectPolicy::default());
    assert!(!cfg.limits.allow_https_to_http_downgrade);
    assert_eq!(cfg.cors.policy, CorsPolicyKind::Reflect);
    assert_eq!(cfg.cors.max_age.as_secs(), 600);
    assert_eq!(
        cfg.cors.allowed_methods,
        vec!["GET", "HEAD", "POST", "PUT", "DELETE", "PATCH", "OPTIONS"]
    );
    assert_eq!(cfg.cors.allowed_headers.len(), 7);
    assert_eq!(
        cfg.cors.exposed_headers,
        vec!["x-corx-status", "x-corx-target-url", "x-request-id"]
    );
    assert_eq!(cfg.security.require_header, vec!["origin"]);
    assert_eq!(cfg.security.block_methods, vec!["CONNECT", "TRACE"]);
    assert_eq!(cfg.security.remove_request_headers, vec!["cookie", "cookie2"]);
    assert_eq!(cfg.security.remove_response_headers, vec!["set-cookie", "set-cookie2"]);
    assert_eq!(cfg.security.preflight.mode, PreflightMode::default());
    assert_eq!(cfg.security.auth.mode, AuthMode::default());
    assert_eq!(cfg.ssrf.mode, SsrfMode::Strict);
    assert!(cfg.ssrf.allow_ipv6 && cfg.ssrf.deny_redirect_to_private);
    assert!(!cfg.rate_limit.enabled);
    assert_eq!((cfg.rate_limit.origin.rps, cfg.rate_limit.origin.burst), (50, 100));
    assert_eq!((cfg.rate_limit.ip.rps, cfg.rate_limit.ip.burst), (30, 60));
    assert_eq!(cfg.rate_limit.global.inflight_max, 1_000);
    assert_eq!(cfg.upstream.user_agent, "corx/0.2.0");
    assert_eq!(cfg.upstream.pool_idle_timeout.as_secs(), 90);
    assert_eq!(cfg.observability.log_format, LogFormat::Json);
    assert_eq!(cfg.observability.metrics_endpoint, "/metrics");
    assert_eq!(cfg.observability.otel.endpoint, "http://localhost:4317");
    assert_eq!(cfg.observability.otel.protocol, OtelProtocol::default());
    assert_eq!(cfg.observability.otel.service_name, "corx");
    assert_eq!(TargetMode::default(), TargetMode::AnyPublic);
    assert_eq!(default_alpn_protocols(), vec!["h2", "http/1.1"]);
}

#[test]
fn durations_keep_their_parts() {
    let d = Duration::from_millis(1_500);
    assert_eq!((d.as_secs(), d.subsec_nanos(), d.as_nanos()), (1, 500_000_000, 1_500_000_000));
    assert_eq!(Duration::new(1, 500_000_000), d);
    assert_eq!(Duration::from_secs(2).as_nanos(), 2_000_000_000);
}

#[test]
fn clients_must_be_bound_where_asked_for() {
    let mut cfg = base();
    cfg.security.require_client_binding = true;
    let err = cfg.validate(all_found()).unwrap_err();
    assert_eq!(err.path, "security.require_client_binding");

    let mut listed = cfg.clone();
    listed.security.origin_whitelist = vec!["https://a.test".into()];
    assert!(listed.validate(all_found()).is_ok());

    let mut tokens = cfg.clone();
    tokens.security.auth.mode = AuthMode::Bearer;
    assert!(tokens.validate(all_found()).is_err());
    tokens.security.auth.bearer_tokens = vec!["t".into()];
    assert!(tokens.validate(all_found()).is_ok());
    tokens.security.auth.mode = AuthMode::Off;
    assert!(tokens.validate(all_found()).is_err());

    let mut tls = TlsConfig {
        cert_path: "c.pem".into(),
        key_path: "k.pem".into(),
        client_ca_path: None,
        alpn_protocols: default_alpn_protocols(),
    };
    cfg.server.tls = Some(tls.clone());
    assert!(cfg.validate(all_found()).is_err());
    tls.client_ca_path = Some("ca.pem".into());
    cfg.server.tls = Some(tls);
    assert!(cfg.validate(all_found()).is_ok());
}
