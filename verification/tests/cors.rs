//! The CORS policy.

use corx::config::CorsPolicyKind;
use corx::message::{Method, RequestHead, ResponseHead};
use corx::proxy::cors::{
    append_vary, apply_to_error_response, apply_to_response, build_preflight_response,
    encode_max_age, encode_token_list, is_preflight, CorsConfig, CorsPolicy,
};
use corx::time::Duration;
use corx::uri::Uri;
use http::HeaderMap;

fn policy(kind: CorsPolicyKind, origins: Vec<String>, allow_any_origin: bool) -> CorsPolicy {
    CorsPolicy::from_config(&CorsConfig {
        policy: kind,
        origins,
        allow_any_origin,
        allowed_methods: vec!["GET".into(), "POST".into(), "OPTIONS".into()],
        allowed_headers: vec!["content-type".into()],
        exposed_headers: vec!["x-corx-status".into()],
        max_age: Duration::from_secs(600),
        allow_credentials: false,
        allow_private_network: false,
    })
}

fn request(method: Method, origin: Option<&str>, preflight_method: Option<&str>) -> RequestHead {
    let mut headers = HeaderMap::new();
    if let Some(origin) = origin {
        headers.insert("origin", origin.parse().unwrap());
    }
    if let Some(preflight) = preflight_method {
        headers.insert("access-control-request-method", preflight.parse().unwrap());
    }
    RequestHead { method, uri: Uri::parse("/").unwrap(), headers }
}

fn response() -> ResponseHead {
    ResponseHead { status: 200, headers: HeaderMap::new() }
}

#[test]
fn wildcard_returns_star() {
    let pol = policy(CorsPolicyKind::Wildcard, vec![], false);
    let req = request(Method::Get, Some("https://app.test"), None);
    let mut resp = response();
    apply_to_response(&mut resp, &req.headers, &pol);
    assert_eq!(resp.headers.get("access-control-allow-origin").unwrap(), "*");
}

#[test]
fn reflect_with_allow_any_origin_echoes() {
    let pol = policy(CorsPolicyKind::Reflect, vec![], true);
    let req = request(Method::Get, Some("https://app.test"), None);
    let mut resp = response();
    apply_to_response(&mut resp, &req.headers, &pol);
    assert_eq!(resp.headers.get("access-control-allow-origin").unwrap(), "https://app.test");
    assert_eq!(resp.headers.get("vary").unwrap(), "origin");
}

#[test]
fn reflect_fail_closed_without_origins_or_flag() {
    let pol = policy(CorsPolicyKind::Reflect, vec![], false);
    let req = request(Method::Get, Some("https://app.test"), None);
    let mut resp = response();
    apply_to_response(&mut resp, &req.headers, &pol);
    assert!(resp.headers.get("access-control-allow-origin").is_none());
}

#[test]
fn reflect_with_origins_gates() {
    let pol = policy(CorsPolicyKind::Reflect, vec!["https://good.test".into()], false);
    let req = request(Method::Get, Some("https://bad.test"), None);
    let mut resp = response();
    apply_to_response(&mut resp, &req.headers, &pol);
    assert!(resp.headers.get("access-control-allow-origin").is_none());
}

#[test]
fn explicit_only_matches_configured() {
    let pol = policy(CorsPolicyKind::Explicit, vec!["https://ok.test".into()], false);
    let req_ok = request(Method::Get, Some("https://ok.test"), None);
    let mut resp_ok = response();
    apply_to_response(&mut resp_ok, &req_ok.headers, &pol);
    assert_eq!(resp_ok.headers.get("access-control-allow-origin").unwrap(), "https://ok.test");

    let req_bad = request(Method::Get, Some("https://x.test"), None);
    let mut resp_bad = response();
    apply_to_response(&mut resp_bad, &req_bad.headers, &pol);
    assert!(resp_bad.headers.get("access-control-allow-origin").is_none());
}

#[test]
fn preflight_uses_configured_allowed_methods() {
    let pol = policy(CorsPolicyKind::Wildcard, vec![], false);
    let req = request(Method::Options, Some("https://a.test"), Some("POST"));
    assert!(is_preflight(&req));
    let resp = build_preflight_response(&req, &pol);
    assert_eq!(resp.status, 204);
    assert_eq!(resp.headers.get("access-control-allow-methods").unwrap(), "GET, POST, OPTIONS");
    assert_eq!(resp.headers.get("access-control-allow-headers").unwrap(), "content-type");
    assert_eq!(resp.headers.get("access-control-max-age").unwrap(), "600");
    let vary = resp.headers.get("vary").and_then(|v| v.to_str().ok()).unwrap_or_default();
    assert!(vary.contains("origin"), "vary must contain origin: {vary}");
    assert!(
        vary.contains("access-control-request-method"),
        "vary must contain ACR-Method: {vary}"
    );
}

#[test]
fn exposed_headers_are_emitted_on_real_response() {
    let pol = policy(CorsPolicyKind::Reflect, vec![], true);
    let req = request(Method::Get, Some("https://app.test"), None);
    let mut resp = response();
    apply_to_response(&mut resp, &req.headers, &pol);
    assert_eq!(resp.headers.get("access-control-expose-headers").unwrap(), "x-corx-status");
}

#[test]
fn pna_handshake_replies_when_enabled() {
    let mut cfg = CorsConfig {
        policy: CorsPolicyKind::Wildcard,
        origins: vec![],
        allow_any_origin: false,
        allowed_methods: vec!["GET".into()],
        allowed_headers: vec!["content-type".into()],
        exposed_headers: vec![],
        max_age: Duration::from_secs(60),
        allow_credentials: false,
        allow_private_network: true,
    };
    let pol = CorsPolicy::from_config(&cfg);
    let mut req = request(Method::Options, Some("https://app.test"), Some("GET"));
    req.headers.insert("access-control-request-private-network", "true".parse().unwrap());
    let resp = build_preflight_response(&req, &pol);
    assert_eq!(resp.headers.get("access-control-allow-private-network").unwrap(), "true");

    // The handshake is off by default.
    cfg.allow_private_network = false;
    let pol_off = CorsPolicy::from_config(&cfg);
    let resp_off = build_preflight_response(&req, &pol_off);
    assert!(resp_off.headers.get("access-control-allow-private-network").is_none());
}

#[test]
fn wildcard_with_credentials_falls_back_to_origin_echo() {
    let mut cfg = CorsConfig {
        policy: CorsPolicyKind::Wildcard,
        origins: vec![],
        allow_any_origin: false,
        allowed_methods: vec![],
        allowed_headers: vec![],
        exposed_headers: vec![],
        max_age: Duration::from_secs(60),
        allow_credentials: true,
        allow_private_network: false,
    };
    let pol = CorsPolicy::from_config(&cfg);
    assert!(pol.allow_credentials());
    let req = request(Method::Get, Some("https://app.test"), None);
    let mut resp = response();
    apply_to_response(&mut resp, &req.headers, &pol);
    assert_eq!(resp.headers.get("access-control-allow-origin").unwrap(), "https://app.test");
    assert_eq!(resp.headers.get("access-control-allow-credentials").unwrap(), "true");
    // The wildcard is back when credentials are off.
    cfg.allow_credentials = false;
    let pol_no_creds = CorsPolicy::from_config(&cfg);
    let mut resp2 = response();
    apply_to_response(&mut resp2, &req.headers, &pol_no_creds);
    assert_eq!(resp2.headers.get("access-control-allow-origin").unwrap(), "*");
}

#[test]
fn preflight_echoes_what_is_not_configured() {
    let pol = CorsPolicy::from_config(&CorsConfig {
        policy: CorsPolicyKind::Wildcard,
        origins: vec![],
        allow_any_origin: false,
        allowed_methods: vec![],
        allowed_headers: vec![],
        exposed_headers: vec![],
        max_age: Duration::from_millis(1999),
        allow_credentials: false,
        allow_private_network: false,
    });
    let mut req = request(Method::Options, Some("https://a.test"), Some("PATCH"));
    req.headers.insert("access-control-request-headers", "x-a, x-b".parse().unwrap());
    let resp = build_preflight_response(&req, &pol);
    assert_eq!(resp.headers.get("access-control-allow-methods").unwrap(), "PATCH");
    assert_eq!(resp.headers.get("access-control-allow-headers").unwrap(), "x-a, x-b");
    assert_eq!(resp.headers.get("access-control-max-age").unwrap(), "1");
    assert_eq!(
        resp.headers.get("vary").unwrap(),
        "origin, access-control-request-method, access-control-request-headers"
    );
}

#[test]
fn preflight_needs_method_origin_and_request_method() {
    assert!(!is_preflight(&request(Method::Get, Some("https://a.test"), Some("GET"))));
    assert!(!is_preflight(&request(Method::Options, None, Some("GET"))));
    assert!(!is_preflight(&request(Method::Options, Some("https://a.test"), None)));
}

#[test]
fn upstream_values_give_way_to_the_policy() {
    let pol = policy(CorsPolicyKind::Reflect, vec![], true);
    let req = request(Method::Get, Some("https://app.test"), None);
    let mut resp = response();
    resp.headers.append("access-control-allow-origin", "*".parse().unwrap());
    resp.headers.append("access-control-allow-origin", "https://x.test".parse().unwrap());
    resp.headers.insert("content-type", "text/plain".parse().unwrap());
    apply_to_error_response(&mut resp, &req.headers, &pol);
    assert_eq!(resp.headers.get_all("access-control-allow-origin").iter().count(), 1);
    assert_eq!(resp.headers.get("access-control-allow-origin").unwrap(), "https://app.test");
    assert_eq!(resp.headers.get("content-type").unwrap(), "text/plain");
    assert_eq!(resp.status, 200);
}

#[test]
fn upstream_values_do_not_outlive_a_refusal() {
    let pol = policy(CorsPolicyKind::Explicit, vec!["https://ok.test".into()], false);
    let req = request(Method::Get, Some("https://x.test"), None);
    let mut resp = response();
    for name in [
        "access-control-allow-origin",
        "access-control-allow-credentials",
        "access-control-expose-headers",
        "access-control-allow-methods",
        "access-control-allow-headers",
        "access-control-max-age",
        "access-control-allow-private-network",
    ] {
        resp.headers.insert(name, "x".parse().unwrap());
    }
    resp.headers.insert("x-other", "1".parse().unwrap());
    apply_to_response(&mut resp, &req.headers, &pol);
    assert_eq!(resp.headers.len(), 3);
    assert_eq!(resp.headers.get("access-control-expose-headers").unwrap(), "x-corx-status");
    assert_eq!(resp.headers.get("vary").unwrap(), "origin");
    assert_eq!(resp.headers.get("x-other").unwrap(), "1");
    let req = request(Method::Get, Some("https://ok.test"), None);
    resp.headers.insert("access-control-allow-credentials", "true".parse().unwrap());
    apply_to_response(&mut resp, &req.headers, &pol);
    assert_eq!(resp.headers.get("access-control-allow-origin").unwrap(), "https://ok.test");
    assert!(resp.headers.get("access-control-allow-credentials").is_none());
}

#[test]
fn unreadable_origins_are_not_let_in() {
    let pol = policy(CorsPolicyKind::Reflect, vec![], true);
    let mut headers = HeaderMap::new();
    headers.insert("origin", http::HeaderValue::from_bytes(b"https://\xff.test").unwrap());
    let mut resp = response();
    apply_to_response(&mut resp, &headers, &pol);
    assert!(resp.headers.get("access-control-allow-origin").is_none());
    assert_eq!(resp.headers.get("vary").unwrap(), "origin");
}

#[test]
fn vary_grows_once_for_each_name() {
    let mut headers = HeaderMap::new();
    headers.insert("vary", "Accept , ORIGIN".parse().unwrap());
    append_vary(&mut headers, "origin");
    assert_eq!(headers.get("vary").unwrap(), "Accept , ORIGIN");
    append_vary(&mut headers, "x-a");
    append_vary(&mut headers, "x-a");
    assert_eq!(headers.get("vary").unwrap(), "Accept , ORIGIN, x-a");
}

#[test]
fn unreadable_vary_is_left_alone() {
    let mut headers = HeaderMap::new();
    headers.insert("vary", http::HeaderValue::from_bytes(b"\xff").unwrap());
    append_vary(&mut headers, "origin");
    assert_eq!(headers.get("vary").unwrap().as_bytes(), b"\xff");
}

#[test]
fn lists_and_ages_are_encoded() {
    assert_eq!(encode_token_list(&vec![]), None);
    assert_eq!(encode_token_list(&vec!["a".into(), "b".into()]), Some(b"a, b".to_vec()));
    assert_eq!(encode_token_list(&vec!["a\nb".into()]), None);
    assert_eq!(encode_max_age(Duration::from_secs(0)), Some(b"0".to_vec()));
    assert_eq!(encode_max_age(Duration::from_secs(86_400)), Some(b"86400".to_vec()));
}

#[test]
fn settings_become_policies() {
    let mut settings = corx::config::CorsConfig::default();
    let cfg = CorsConfig::from_settings(&settings);
    assert!(cfg.allow_any_origin && cfg.origins.is_empty());
    settings.allowlist = vec!["https://a.test".into()];
    let cfg = CorsConfig::from_settings(&settings);
    assert!(!cfg.allow_any_origin);
    assert_eq!(cfg.origins, vec!["https://a.test"]);
    settings.policy = CorsPolicyKind::Explicit;
    settings.explicit = vec!["https://b.test".into()];
    assert_eq!(CorsConfig::from_settings(&settings).origins, vec!["https://b.test"]);
    settings.policy = CorsPolicyKind::Wildcard;
    assert!(CorsConfig::from_settings(&settings).origins.is_empty());
    assert_eq!(CorsConfig::from_settings(&settings).allowed_methods.len(), 7);
}

#[test]
fn status_and_request_id_are_always_exposed() {
    let mut settings = corx::config::CorsConfig::default();
    let listed = settings.exposed_headers.clone();
    assert_eq!(CorsConfig::from_settings(&settings).exposed_headers, listed);
    settings.exposed_headers = vec!["x-a".into(), "X-Request-ID".into()];
    assert_eq!(
        CorsConfig::from_settings(&settings).exposed_headers,
        vec!["x-a", "X-Request-ID", "x-corx-status"]
    );
    settings.exposed_headers = vec![];
    assert_eq!(
        CorsConfig::from_settings(&settings).exposed_headers,
        vec!["x-corx-status", "x-request-id"]
    );
}
