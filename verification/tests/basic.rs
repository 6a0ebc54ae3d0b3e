//! The smaller engine.

use corx::basic::config::{Config, SsrfConfig};
use corx::basic::redirect::{continue_to, prepare_next};
use corx::basic::ssrf::{compile_cidr_list, SsrfGuard};
use corx::error::ProxyError;
use corx::message::{Method, ResponseHead};
use corx::net::{IpAddr, SocketAddr};
use corx::proxy::redirect::{
    authority_differs, classify_transition, is_redirect, resolve_location, RedirectState,
};
use corx::proxy::ssrf::find_range;
use corx::uri::Uri;
use http::HeaderMap;

fn uri(s: &str) -> Uri {
    Uri::parse(s).unwrap()
}

fn blocked(ip: IpAddr) -> bool {
    find_range(&compile_cidr_list(&[]), &ip).is_some()
}

fn guard(enabled: bool, allow_ipv6: bool) -> SsrfGuard {
    SsrfGuard::new(&SsrfConfig { enabled, extra_blocked_cidrs: vec![], allow_ipv6 })
}

fn state(method: Method) -> RedirectState {
    let mut headers = HeaderMap::new();
    headers.insert("authorization", "Bearer t".parse().unwrap());
    headers.insert("cookie", "a=b".parse().unwrap());
    headers.insert("host", "a.test".parse().unwrap());
    headers.insert("proxy-authorization", "x".parse().unwrap());
    RedirectState::from_initial(method, uri("https://a.test/x"), headers)
}

fn answer(status: u16, location: &str) -> ResponseHead {
    let mut headers = HeaderMap::new();
    headers.insert("location", location.parse().unwrap());
    ResponseHead { status, headers }
}

#[test]
fn redirect_is_redirect_matches_expected_statuses() {
    assert!(is_redirect(301));
    assert!(is_redirect(302));
    assert!(is_redirect(303));
    assert!(is_redirect(307));
    assert!(is_redirect(308));
    assert!(!is_redirect(200));
    assert!(!is_redirect(304));
}

#[test]
fn redirect_post_downgrades_to_get_on_303() {
    let (method, drop_body) = classify_transition(&Method::Post, 303);
    assert_eq!(method, Method::Get);
    assert!(drop_body);
}

#[test]
fn redirect_get_stays_get_on_308() {
    let (method, drop_body) = classify_transition(&Method::Get, 308);
    assert_eq!(method, Method::Get);
    assert!(!drop_body);
}

#[test]
fn redirect_relative_redirect_is_resolved_against_base() {
    let next = resolve_location(&uri("http://a.test/foo/bar"), "/baz").unwrap();
    assert_eq!(next.text, "http://a.test/baz");
}

#[test]
fn redirect_absolute_redirect_is_returned_verbatim() {
    let next = resolve_location(&uri("http://a.test/"), "https://b.test/path").unwrap();
    assert_eq!(next.text, "https://b.test/path");
}

#[test]
fn redirect_authority_comparison_is_case_insensitive() {
    assert!(!authority_differs(&uri("http://A.Test/"), &uri("http://a.test/")));
}

#[test]
fn redirect_state_constructor_preserves_inputs() {
    let state =
        RedirectState::from_initial(Method::Post, uri("http://a.test/"), HeaderMap::new());
    assert_eq!(state.method, Method::Post);
    assert_eq!(state.uri.text, "http://a.test/");
    assert!(state.headers.is_empty());
}

#[test]
fn ssrf_default_list_blocks_loopback() {
    assert!(blocked(IpAddr::v4(127, 0, 0, 1)));
}

#[test]
fn ssrf_default_list_blocks_ipv6_loopback() {
    assert!(blocked(IpAddr::V6(1)));
}

#[test]
fn ssrf_default_list_blocks_link_local() {
    assert!(blocked(IpAddr::v4(169, 254, 169, 254)));
}

#[test]
fn ssrf_public_ip_is_not_blocked() {
    assert!(!blocked(IpAddr::v4(1, 1, 1, 1)));
}

#[test]
fn smaller_list_has_its_own_ranges() {
    assert_eq!(compile_cidr_list(&[]).len(), 23);
    assert!(!blocked(IpAddr::parse("2001:db8::1").unwrap()));
    assert!(blocked(IpAddr::parse("fe80::1").unwrap()));
}

#[test]
fn first_address_that_passes_is_taken() {
    let g = guard(true, true);
    let found = vec![IpAddr::v4(10, 0, 0, 1), IpAddr::v4(1, 1, 1, 1), IpAddr::v4(8, 8, 8, 8)];
    assert_eq!(
        g.resolve("x.test", 80, Ok(found)).unwrap(),
        SocketAddr { ip: IpAddr::v4(1, 1, 1, 1), port: 80 }
    );
}

#[test]
fn all_refused_is_a_refusal() {
    let g = guard(true, true);
    let found = vec![IpAddr::v4(10, 0, 0, 1), IpAddr::v4(127, 0, 0, 1)];
    match g.resolve("x.test", 80, Ok(found)) {
        Err(ProxyError::SsrfBlocked(ip)) => assert_eq!(ip, IpAddr::v4(10, 0, 0, 1)),
        other => panic!("unexpected {other:?}"),
    }
}

#[test]
fn switched_off_guard_refuses_nothing() {
    let g = guard(false, true);
    let local = IpAddr::v4(127, 0, 0, 1);
    assert!(g.check_ip(local).is_ok());
    assert_eq!(g.resolve("x.test", 1, Ok(vec![local])).unwrap().ip, local);
    assert_eq!(g.resolve("127.0.0.1", 1, Ok(vec![])).unwrap().ip, local);
}

#[test]
fn families_and_failures_are_reported() {
    let g = guard(true, false);
    let found = vec![IpAddr::parse("2606:4700::1111").unwrap()];
    match g.resolve("x.test", 80, Ok(found)) {
        Err(ProxyError::Dns { source, .. }) => {
            assert_eq!(source, "no usable address returned by resolver");
        }
        other => panic!("unexpected {other:?}"),
    }
    match g.resolve("x.test", 80, Err("refused".into())) {
        Err(ProxyError::Dns { source, .. }) => assert_eq!(source, "refused"),
        other => panic!("unexpected {other:?}"),
    }
    assert!(g.resolve("127.0.0.1", 80, Ok(vec![])).is_err());
}

#[test]
fn smaller_redirects_drop_fewer_headers() {
    let mut st = state(Method::Get);
    let next = prepare_next(&mut st, &answer(302, "ftp://b.test/")).unwrap().unwrap();
    assert_eq!(next.headers.len(), 1);
    assert!(next.headers.contains_key("proxy-authorization"));
    assert_eq!(st.uri.text, "ftp://b.test/");
}

#[test]
fn smaller_redirects_stop_without_location_or_with_body() {
    let mut st = state(Method::Post);
    assert!(prepare_next(&mut st, &answer(307, "/y")).unwrap().is_none());
    let bare = ResponseHead { status: 302, headers: HeaderMap::new() };
    assert!(prepare_next(&mut st, &bare).unwrap().is_none());
    assert!(prepare_next(&mut st, &answer(302, "http://a b/")).is_err());
    assert_eq!(st.headers.len(), 4);
    assert!(continue_to(&mut st, uri("https://a.test/z"), 303).is_some());
    assert_eq!(st.method, Method::Get);
    assert_eq!(st.headers.len(), 4);
}

#[test]
fn smaller_defaults() {
    let cfg = Config::defaults();
    assert!(cfg.ssrf.enabled && cfg.ssrf.allow_ipv6);
    assert_eq!((cfg.rate_limit.per_origin_rps, cfg.rate_limit.burst), (10, 20));
    assert_eq!(cfg.limits.max_redirects, 5);
    assert_eq!(cfg.cors.max_age.as_secs(), 600);
    assert_eq!(cfg.observability.log_level, "info");
}
