//! Redirects.

use corx::error::ProxyError;
use corx::message::{Method, ResponseHead};
use corx::proxy::redirect::{
    authority_differs, classify_transition, continue_to, is_https_to_http_downgrade, is_redirect,
    prepare_next, require_safe_scheme, resolve_location, NextHop, RedirectState,
};
use corx::uri::Uri;
use http::HeaderMap;

fn uri(s: &str) -> Uri {
    Uri::parse(s).unwrap()
}

fn state(method: Method, at: &str) -> RedirectState {
    let mut headers = HeaderMap::new();
    headers.insert("authorization", "Bearer t".parse().unwrap());
    headers.insert("cookie", "a=b".parse().unwrap());
    headers.insert("proxy-authorization", "x".parse().unwrap());
    headers.insert("authentication-info", "x".parse().unwrap());
    headers.insert("www-authenticate", "x".parse().unwrap());
    headers.insert("host", "a.test".parse().unwrap());
    headers.insert("accept", "*/*".parse().unwrap());
    RedirectState::from_initial(method, uri(at), headers)
}

fn answer(status: u16, location: Option<&str>) -> ResponseHead {
    let mut headers = HeaderMap::new();
    if let Some(location) = location {
        headers.insert("location", location.parse().unwrap());
    }
    ResponseHead { status, headers }
}

fn reason(err: ProxyError) -> String {
    match err {
        ProxyError::InvalidUrl(reason) => reason,
        other => panic!("unexpected {other:?}"),
    }
}

#[test]
fn is_redirect_matches_expected_statuses() {
    assert!(is_redirect(301));
    assert!(is_redirect(302));
    assert!(is_redirect(303));
    assert!(is_redirect(307));
    assert!(is_redirect(308));
    assert!(!is_redirect(200));
    assert!(!is_redirect(304));
}

#[test]
fn post_downgrades_to_get_on_303() {
    let (method, drop_body) = classify_transition(&Method::Post, 303);
    assert_eq!(method, Method::Get);
    assert!(drop_body);
}

#[test]
fn get_stays_get_on_308() {
    let (method, drop_body) = classify_transition(&Method::Get, 308);
    assert_eq!(method, Method::Get);
    assert!(!drop_body);
}

#[test]
fn relative_redirect_is_resolved_against_base() {
    let base = uri("http://a.test/foo/bar");
    let next = resolve_location(&base, "/baz").unwrap();
    assert_eq!(next.text, "http://a.test/baz");
}

#[test]
fn absolute_redirect_is_returned_verbatim() {
    let base = uri("http://a.test/");
    let next = resolve_location(&base, "https://b.test/path").unwrap();
    assert_eq!(next.text, "https://b.test/path");
}

#[test]
fn authority_comparison_is_case_insensitive() {
    let a = uri("http://A.Test/");
    let b = uri("http://a.test/");
    assert!(!authority_differs(&a, &b));
}

#[test]
fn state_constructor_preserves_inputs() {
    let state =
        RedirectState::from_initial(Method::Post, uri("http://a.test/"), HeaderMap::new());
    assert_eq!(state.method, Method::Post);
    assert_eq!(state.uri.text, "http://a.test/");
    assert!(state.headers.is_empty());
}

#[test]
fn file_scheme_is_rejected() {
    assert!(require_safe_scheme(&uri("file://localhost/etc/passwd")).is_err());
}

#[test]
fn ftp_scheme_is_rejected() {
    assert!(require_safe_scheme(&uri("ftp://example.com/")).is_err());
}

#[test]
fn ws_scheme_is_rejected() {
    assert!(require_safe_scheme(&uri("ws://example.com/socket")).is_err());
}

#[test]
fn gopher_scheme_is_rejected() {
    assert!(require_safe_scheme(&uri("gopher://example.com/")).is_err());
}

#[test]
fn detects_https_to_http_downgrade() {
    let from = uri("https://a.test/");
    let to = uri("http://a.test/");
    assert!(is_https_to_http_downgrade(&from, &to));
    let to_https = uri("https://b.test/");
    assert!(!is_https_to_http_downgrade(&from, &to_https));
}

#[test]
fn next_hop_enum_constructible_from_continue() {
    // Both decisions can be told apart by a caller.
    fn accept(n: NextHop) -> bool {
        matches!(n, NextHop::Continue(_))
    }
    assert!(!accept(NextHop::Stop("no Location header")));
}

#[test]
fn schemes_are_named_in_refusals() {
    assert_eq!(
        reason(require_safe_scheme(&uri("ftp://example.com/")).unwrap_err()),
        "redirect to unsupported scheme `ftp`"
    );
    assert_eq!(
        reason(require_safe_scheme(&uri("/relative")).unwrap_err()),
        "redirect Location lacks a scheme"
    );
    assert!(require_safe_scheme(&uri("http://a.test/")).is_ok());
}

#[test]
fn every_body_is_dropped_on_301_302_303_and_kept_on_307_308() {
    for method in [Method::Post, Method::Put, Method::Patch] {
        for status in [301, 302, 303] {
            assert_eq!(classify_transition(&method, status), (Method::Get, true));
        }
        for status in [307, 308] {
            assert_eq!(classify_transition(&method, status), (method.clone(), false));
        }
    }
    assert_eq!(classify_transition(&Method::Delete, 303), (Method::Delete, false));
    let custom = Method::Other("PURGE".to_owned());
    assert_eq!(classify_transition(&custom, 301), (custom.clone(), false));
}

#[test]
fn secrets_do_not_cross_hosts() {
    let mut st = state(Method::Post, "https://a.test/x");
    let next = prepare_next(&mut st, &answer(302, Some("https://b.test/y")), false).unwrap();
    let NextHop::Continue(head) = next else { panic!("stopped") };
    assert_eq!(head.method, Method::Get);
    assert_eq!(head.uri.text, "https://b.test/y");
    assert_eq!(head.headers.len(), 1);
    assert_eq!(head.headers.get("accept").unwrap(), "*/*");
    assert_eq!(st.headers, head.headers);
    assert_eq!(st.uri.text, "https://b.test/y");
    assert_eq!(st.method, Method::Get);
}

#[test]
fn headers_stay_on_the_same_host() {
    let mut st = state(Method::Get, "https://a.test/x");
    let next = prepare_next(&mut st, &answer(307, Some("/y")), false).unwrap();
    let NextHop::Continue(head) = next else { panic!("stopped") };
    assert_eq!(head.headers.len(), 7);
    assert_eq!(head.uri.text, "https://a.test/y");
}

#[test]
fn bodies_are_not_replayed() {
    let mut st = state(Method::Put, "https://a.test/x");
    match prepare_next(&mut st, &answer(308, Some("/y")), false).unwrap() {
        NextHop::Stop(why) => {
            assert_eq!(why, "307/308 with body-bearing method cannot be safely replayed");
        }
        other => panic!("unexpected {other:?}"),
    }
    assert_eq!(st.uri.text, "https://a.test/x");
    assert_eq!(st.headers.len(), 7);
}

#[test]
fn missing_or_unreadable_locations_stop() {
    let mut st = state(Method::Get, "https://a.test/x");
    match prepare_next(&mut st, &answer(302, None), false).unwrap() {
        NextHop::Stop(why) => assert_eq!(why, "no Location header"),
        other => panic!("unexpected {other:?}"),
    }
    let mut unreadable = answer(302, None);
    unreadable
        .headers
        .insert("location", http::HeaderValue::from_bytes(b"/\xff").unwrap());
    match prepare_next(&mut st, &unreadable, false).unwrap() {
        NextHop::Stop(why) => assert_eq!(why, "non-utf8 Location header"),
        other => panic!("unexpected {other:?}"),
    }
}

#[test]
fn downgrades_need_leave() {
    let mut st = state(Method::Get, "https://a.test/x");
    let down = answer(302, Some("http://a.test/y"));
    assert_eq!(
        reason(prepare_next(&mut st, &down, false).unwrap_err()),
        "https → http redirect downgrade rejected"
    );
    assert_eq!(st.uri.text, "https://a.test/x");
    assert!(prepare_next(&mut st, &down, true).is_ok());
    assert_eq!(st.uri.text, "http://a.test/y");
}

#[test]
fn malformed_locations_are_errors() {
    let base = uri("http://a.test/");
    let cases = [("http://a b/", "invalid redirect target: ")];
    for (location, start) in cases {
        assert!(reason(resolve_location(&base, location).unwrap_err()).starts_with(start));
    }
    let err = resolve_location(&uri("/no-base"), "next").unwrap_err();
    assert!(reason(err).starts_with("uri-to-url failed: "));
    let err = resolve_location(&base, "//[").unwrap_err();
    assert!(reason(err).starts_with("cannot resolve redirect: "));
    let err = resolve_location(&base, "data:text/plain,x").unwrap_err();
    assert!(reason(err).starts_with("invalid resolved redirect: "));
}

#[test]
fn targets_can_be_decided_without_a_response() {
    let mut st = state(Method::Get, "https://a.test/x");
    assert!(continue_to(&mut st, uri("ftp://b.test/"), 302, true).is_err());
    assert!(continue_to(&mut st, uri("https://b.test/"), 302, true).is_ok());
    assert!(st.headers.get("cookie").is_none());
}

#[test]
fn urls_in_the_query_do_not_make_a_location_absolute() {
    let base = uri("http://a.test/foo");
    let next = resolve_location(&base, "/login?next=https://b.test/").unwrap();
    assert_eq!(next.text, "http://a.test/login?next=https://b.test/");
    let next = resolve_location(&base, "bar?u=http://x/").unwrap();
    assert_eq!(next.text, "http://a.test/bar?u=http://x/");
    let mut st = state(Method::Get, "https://a.test/x");
    assert!(prepare_next(&mut st, &answer(302, Some("/l?next=https://b.test/")), false).is_ok());
    assert_eq!(st.uri.text, "https://a.test/l?next=https://b.test/");
}

#[test]
fn locations_with_an_odd_scheme_are_read_as_they_stand() {
    let base = uri("http://a.test/");
    let err = resolve_location(&base, "foo_bar://x/").unwrap_err();
    assert!(reason(err).starts_with("invalid redirect target: "));
    let mut st = state(Method::Get, "http://a.test/");
    let err = prepare_next(&mut st, &answer(302, Some("://x")), true).unwrap_err();
    assert_eq!(reason(err), "redirect to unsupported scheme ``");
    assert!(prepare_next(&mut st, &answer(302, Some("gopher+x://b.test/")), true).is_err());
    assert_eq!(st.uri.text, "http://a.test/");
}
