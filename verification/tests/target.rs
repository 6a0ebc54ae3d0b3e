//! Target admission.

use corx::config::{TargetConfig, TargetMode};
use corx::error::ProxyError;
use corx::policy::target::{host_matches, TargetPolicy};
use corx::proxy::url_parser::{extract_target, TargetUrl};
use corx::uri::Uri;

fn target(url: &str) -> TargetUrl {
    let path = format!("/{url}");
    extract_target(&Uri::parse(&path).unwrap()).unwrap()
}

fn reason(r: Result<(), ProxyError>) -> String {
    match r {
        Err(ProxyError::TargetNotAllowed(reason)) => reason,
        other => panic!("unexpected {other:?}"),
    }
}

#[test]
fn any_public_admits_http_and_https() {
    let pol = TargetPolicy::from_config(&TargetConfig::default());
    assert!(pol.check(&target("https://example.com/a")).is_ok());
    assert!(pol.check(&target("http://example.com/a")).is_ok());
}

#[test]
fn https_only_rejects_http() {
    let cfg = TargetConfig { https_only: true, ..TargetConfig::default() };
    let pol = TargetPolicy::from_config(&cfg);
    assert!(pol.check(&target("http://example.com/a")).is_err());
    assert!(pol.check(&target("https://example.com/a")).is_ok());
}

#[test]
fn allowlist_suffix_match() {
    let pol = TargetPolicy::from_config(&TargetConfig {
        mode: TargetMode::Allowlist,
        hosts: vec![".example.com".into()],
        ..TargetConfig::default()
    });
    assert!(pol.check(&target("https://a.example.com/x")).is_ok());
    assert!(pol.check(&target("https://example.com/x")).is_ok());
    assert!(pol.check(&target("https://evil.com/x")).is_err());
}

#[test]
fn denylist_blocks_pattern() {
    let pol = TargetPolicy::from_config(&TargetConfig {
        mode: TargetMode::Denylist,
        hosts: vec!["bad.test".into()],
        ..TargetConfig::default()
    });
    assert!(pol.check(&target("https://bad.test/x")).is_err());
    assert!(pol.check(&target("https://good.test/x")).is_ok());
}

#[test]
fn check_uri_enforces_allowlist_on_redirect_hop() {
    let pol = TargetPolicy::from_config(&TargetConfig {
        mode: TargetMode::Allowlist,
        hosts: vec!["allowed.test".into()],
        ..TargetConfig::default()
    });
    let ok = Uri::parse("https://allowed.test/next").unwrap();
    let bad = Uri::parse("https://evil.test/next").unwrap();
    assert!(pol.check_uri(&ok).is_ok());
    assert!(pol.check_uri(&bad).is_err());
}

#[test]
fn refusals_say_why() {
    let only = TargetConfig { https_only: true, ..TargetConfig::default() };
    let pol = TargetPolicy::from_config(&only);
    assert_eq!(
        reason(pol.check_authority("HTTP", "a.test")),
        "scheme `http` rejected (https_only)"
    );
    let pol = TargetPolicy::from_config(&TargetConfig::default()).clone();
    assert_eq!(reason(pol.check_authority("ftp", "a.test")), "scheme `ftp` is not allowed");
    let mut cfg = TargetConfig { mode: TargetMode::Allowlist, ..TargetConfig::default() };
    let pol = TargetPolicy::from_config(&cfg);
    assert_eq!(reason(pol.check_authority("http", "a.test")), "allowlist is empty");
    cfg.hosts = vec![" B.Test ".into(), "  ".into()];
    let pol = TargetPolicy::from_config(&cfg);
    assert_eq!(
        reason(pol.check_authority("http", "A.test")),
        "host `a.test` is not on the allowlist"
    );
    assert!(pol.check_authority("http", "b.TEST").is_ok());
    cfg.mode = TargetMode::Denylist;
    let pol = TargetPolicy::from_config(&cfg);
    assert_eq!(reason(pol.check_authority("http", "b.test")), "host `b.test` is denylisted");
}

#[test]
fn configured_schemes_replace_the_usual_ones() {
    let cfg = TargetConfig { schemes: vec![" GOPHER ".into()], ..TargetConfig::default() };
    let pol = TargetPolicy::from_config(&cfg);
    assert!(pol.check_authority("gopher", "a.test").is_ok());
    assert!(pol.check_authority("https", "a.test").is_err());
    let none = TargetConfig { schemes: vec![], ..TargetConfig::default() };
    let pol = TargetPolicy::from_config(&none);
    assert!(pol.check_authority("https", "a.test").is_ok());
    assert!(pol.check_authority("http", "a.test").is_ok());
}

#[test]
fn hops_need_scheme_and_host() {
    let pol = TargetPolicy::from_config(&TargetConfig::default());
    match pol.check_uri(&Uri::parse("/x").unwrap()) {
        Err(ProxyError::InvalidUrl(reason)) => assert_eq!(reason, "hop URI lacks a scheme"),
        other => panic!("unexpected {other:?}"),
    }
    let mut uri = Uri::parse("http://a.test/").unwrap();
    uri.host = None;
    match pol.check_uri(&uri) {
        Err(ProxyError::InvalidUrl(reason)) => assert_eq!(reason, "hop URI lacks a host"),
        other => panic!("unexpected {other:?}"),
    }
}

#[test]
fn patterns_with_a_dot_cover_subdomains_only() {
    assert!(host_matches(".example.com", "a.b.example.com"));
    assert!(host_matches(".example.com", "example.com"));
    assert!(!host_matches(".example.com", "badexample.com"));
    assert!(!host_matches("example.com", "a.example.com"));
    assert!(host_matches("example.com", "example.com"));
}
