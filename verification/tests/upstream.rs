//! The decisions of the upstream client.

use corx::config::{SsrfConfig, TargetConfig, TargetMode};
use corx::error::ProxyError;
use corx::message::{Method, RequestHead, ResponseHead};
use corx::net::IpAddr;
use corx::policy::TargetPolicy;
use corx::proxy::{SsrfGuard, Upstream, UpstreamConfig};
use corx::time::Duration;
use corx::uri::Uri;
use http::HeaderMap;

fn upstream(max_redirects: u8, hosts: Vec<String>) -> Upstream {
    let mode = if hosts.is_empty() { TargetMode::AnyPublic } else { TargetMode::Allowlist };
    Upstream::new(
        UpstreamConfig {
            pool_max_idle_per_host: 32,
            pool_idle_timeout: Duration::from_secs(90),
            connect_timeout: Duration::from_secs(10),
            max_redirects,
            user_agent: "corx/test".into(),
        },
        SsrfGuard::new(&SsrfConfig::default()),
        TargetPolicy::from_config(&TargetConfig { mode, hosts, ..TargetConfig::default() }),
        false,
    )
}

fn request() -> RequestHead {
    let mut headers = HeaderMap::new();
    headers.insert("cookie", "a=b".parse().unwrap());
    RequestHead { method: Method::Get, uri: Uri::parse("https://a.test/").unwrap(), headers }
}

fn answer(status: u16, location: &str) -> ResponseHead {
    let mut headers = HeaderMap::new();
    headers.insert("location", location.parse().unwrap());
    ResponseHead { status, headers }
}

#[test]
fn responses_that_are_no_redirects_are_the_answer() {
    let up = upstream(5, vec![]);
    let mut flow = up.begin(&request());
    assert!(flow.on_response(&answer(200, "/x")).unwrap().is_none());
    assert!(flow.on_response(&answer(304, "/x")).unwrap().is_none());
    let no_location = ResponseHead { status: 302, headers: HeaderMap::new() };
    assert!(flow.on_response(&no_location).unwrap().is_none());
}

#[test]
fn redirects_are_followed_within_the_budget() {
    let up = upstream(2, vec![]);
    let mut flow = up.begin(&request());
    let first = flow.on_response(&answer(302, "/x")).unwrap().unwrap();
    assert_eq!(first.uri.text, "https://a.test/x");
    assert_eq!(first.headers.get("cookie").unwrap(), "a=b");
    let second = flow.on_response(&answer(302, "https://b.test/y")).unwrap().unwrap();
    assert_eq!(second.uri.text, "https://b.test/y");
    assert!(second.headers.is_empty());
    match flow.on_response(&answer(302, "/z")) {
        Err(ProxyError::TooManyRedirects(limit)) => assert_eq!(limit, 2),
        other => panic!("unexpected {other:?}"),
    }
}

#[test]
fn no_budget_means_no_redirect() {
    let up = upstream(0, vec![]);
    let mut flow = up.begin(&request());
    assert!(matches!(
        flow.on_response(&answer(302, "/x")),
        Err(ProxyError::TooManyRedirects(0))
    ));
}

#[test]
fn every_hop_is_admitted() {
    let up = upstream(5, vec![".a.test".into()]);
    let mut flow = up.begin(&request());
    assert!(flow.on_response(&answer(302, "https://b.a.test/")).unwrap().is_some());
    match flow.on_response(&answer(302, "https://evil.test/")) {
        Err(ProxyError::TargetNotAllowed(reason)) => {
            assert_eq!(reason, "host `evil.test` is not on the allowlist");
        }
        other => panic!("unexpected {other:?}"),
    }
}

#[test]
fn refused_literals_end_the_request() {
    let up = upstream(9, vec![]);
    for location in ["https://127.0.0.1/", "https://[::1]:8443/", "https://10.0.0.1/x"] {
        let mut flow = up.begin(&request());
        match flow.on_response(&answer(302, location)) {
            Err(ProxyError::SsrfBlocked(_)) => {}
            other => panic!("unexpected {other:?}"),
        }
    }
    let mut flow = up.begin(&request());
    assert!(flow.on_response(&answer(302, "https://8.8.8.8/")).unwrap().is_some());
}

#[test]
fn malformed_targets_end_the_request() {
    let up = upstream(5, vec![]);
    let mut flow = up.begin(&request());
    assert!(flow.on_response(&answer(302, "http://a b/")).is_err());
    assert!(flow.on_response(&answer(302, "http://a.test/")).is_err());
}

#[test]
fn settings_are_exposed() {
    let up = upstream(5, vec![]);
    assert_eq!(up.user_agent(), "corx/test");
    assert!(up.guard().check_ip(IpAddr::v4(127, 0, 0, 1)).is_err());
}
