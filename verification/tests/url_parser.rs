//! Extraction of the target URL.

use corx::error::ProxyError;
use corx::proxy::url_parser::{
    candidate_from_uri, check_url, extract_target, find_query_value, normalize_scheme, target_at,
    validate,
};
use corx::uri::{Uri, Url};

fn uri(s: &str) -> Uri {
    Uri::parse(s).unwrap()
}

fn reason(err: ProxyError) -> String {
    match err {
        ProxyError::InvalidUrl(reason) => reason,
        other => panic!("unexpected {other:?}"),
    }
}

#[test]
fn path_form_with_scheme() {
    let target = extract_target(&uri("/https://api.example.com/v1/data")).unwrap();
    assert_eq!(target.host, "api.example.com");
    assert_eq!(target.port, 443);
}

#[test]
fn path_form_without_scheme_defaults_to_http() {
    let target = extract_target(&uri("/api.example.com/v1/data")).unwrap();
    assert_eq!(target.url.scheme(), "http");
    assert_eq!(target.port, 80);
}

#[test]
fn path_form_port_443_implies_https() {
    let target = extract_target(&uri("/api.example.com:443/v1")).unwrap();
    assert_eq!(target.url.scheme(), "https");
}

#[test]
fn query_form_is_accepted() {
    let encoded = "/?url=https%3A%2F%2Fapi.example.com%2Fpath";
    let target = extract_target(&uri(encoded)).unwrap();
    assert_eq!(target.host, "api.example.com");
}

#[test]
fn empty_path_is_rejected() {
    assert!(extract_target(&uri("/")).is_err());
}

#[test]
fn ftp_is_rejected() {
    assert!(extract_target(&uri("/ftp://example.com/")).is_err());
}

#[test]
fn idn_host_is_punycoded() {
    let target = extract_target(&uri("/https://münchen.de/")).unwrap();
    assert_eq!(target.host, "xn--mnchen-3ya.de");
}

#[test]
fn candidate_keeps_the_query_of_the_path_form() {
    assert_eq!(candidate_from_uri(&uri("/a.test/x?y=1")).unwrap(), "a.test/x?y=1");
    assert_eq!(candidate_from_uri(&uri("///a.test")).unwrap(), "a.test");
    assert_eq!(candidate_from_uri(&uri("/ignored?k=1&url=b.test")).unwrap(), "b.test");
    assert_eq!(reason(candidate_from_uri(&uri("/?k=1")).unwrap_err()), "no target url supplied");
}

#[test]
fn first_pair_with_the_key_wins() {
    assert_eq!(find_query_value("a=1&url=x&url=y", "url").unwrap(), "x");
    assert_eq!(find_query_value("url&url=x=y", "url").unwrap(), "x=y");
    assert_eq!(find_query_value("url=", "url").unwrap(), "");
    assert!(find_query_value("a=1", "url").is_none());
    assert!(find_query_value("", "url").is_none());
}

#[test]
fn schemes_are_named_or_implied() {
    assert_eq!(normalize_scheme("HTTPS://a.test").unwrap(), "HTTPS://a.test");
    assert_eq!(normalize_scheme("a.test").unwrap(), "http://a.test");
    assert_eq!(normalize_scheme("a.test:443/x:1").unwrap(), "https://a.test:443/x:1");
    assert_eq!(normalize_scheme("a.test:8443/").unwrap(), "http://a.test:8443/");
    assert_eq!(normalize_scheme("a.test/x:443").unwrap(), "http://a.test/x:443");
    assert_eq!(
        reason(normalize_scheme("FTP://a.test").unwrap_err()),
        "unsupported scheme `ftp`"
    );
}

#[test]
fn named_scheme_is_kept_in_any_case() {
    let target = extract_target(&uri("/HtTpS://a.test/")).unwrap();
    assert_eq!(target.url.scheme(), "https");
}

#[test]
fn escapes_must_be_utf8() {
    let err = extract_target(&uri("/?url=http%3A%2F%2F%ff")).unwrap_err();
    assert_eq!(reason(err), "target contains invalid utf-8");
}

#[test]
fn malformed_urls_are_reported() {
    let err = extract_target(&uri("/http://[::1")).unwrap_err();
    assert!(reason(err).starts_with("url parse failed: "));
}

#[test]
fn hosts_of_other_schemes_are_refused() {
    let mut url = Url::parse("ws://a.test/").unwrap();
    assert_eq!(reason(check_url(&url).unwrap_err()), "unsupported scheme `ws`");
    url.scheme = "http".to_owned();
    assert_eq!(check_url(&url).unwrap(), "a.test");
    url.host = Some(String::new());
    assert_eq!(reason(check_url(&url).unwrap_err()), "empty hostname");
    url.host = None;
    assert_eq!(reason(check_url(&url).unwrap_err()), "missing hostname");
}

#[test]
fn hosts_without_ascii_form_are_refused() {
    let mut url = Url::parse("http://a.test/").unwrap();
    url.host = Some("a b".to_owned());
    assert!(reason(validate(url).unwrap_err()).starts_with("invalid IDN host: "));
}

#[test]
fn unicode_hosts_are_set_in_ascii_form() {
    let mut url = Url::parse("http://a.test:8080/x?y").unwrap();
    url.host = Some("münchen.de".to_owned());
    let target = validate(url).unwrap();
    assert_eq!(target.host, "xn--mnchen-3ya.de");
    assert_eq!(target.url.text, "http://xn--mnchen-3ya.de:8080/x?y");
    assert_eq!(target.port, 8080);
}

#[test]
fn ports_are_explicit_or_known() {
    let url = Url::parse("http://a.test:81/").unwrap();
    assert_eq!(target_at(url, "a.test".to_owned()).unwrap().port, 81);
    let url = Url::parse("gopher://a.test/").unwrap();
    let err = target_at(url, "a.test".to_owned()).unwrap_err();
    assert_eq!(reason(err), "unable to determine port for scheme");
    for (text, port) in [("ws://a/", 80), ("wss://a/", 443), ("ftp://a/", 21)] {
        assert_eq!(Url::parse(text).unwrap().port_or_known_default(), Some(port));
    }
}

#[test]
fn outbound_uri_is_rebuilt() {
    let target = extract_target(&uri("/http://a.test:8080/p/q?x=1")).unwrap();
    assert_eq!(target.origin_form(), "/p/q?x=1");
    assert_eq!(target.authority(), "a.test:8080");
    assert_eq!(target.to_uri().unwrap().text, "http://a.test:8080/p/q?x=1");
    let target = extract_target(&uri("/https://a.test/p?")).unwrap();
    assert_eq!(target.origin_form(), "/p");
    assert_eq!(target.clone().to_uri().unwrap().text, "https://a.test/p");
}

#[test]
fn unusable_parts_of_a_target_are_reported() {
    let mut target = extract_target(&uri("/http://a.test/")).unwrap();
    target.url.path = "/a b".to_owned();
    assert!(reason(target.to_uri().unwrap_err()).starts_with("invalid path/query: "));
    target.url.path = "/".to_owned();
    target.host = "a b".to_owned();
    assert!(reason(target.to_uri().unwrap_err()).starts_with("uri build failed: "));
}

#[test]
fn ascii_hosts_change_only_their_case() {
    let target = extract_target(&uri("/http://API.Example-1.COM/")).unwrap();
    assert_eq!(target.host, "api.example-1.com");
    let mut url = Url::parse("http://placeholder.example/").unwrap();
    url.host = Some("Api_1.XN--Bcher-Kva.example".to_owned());
    assert_eq!(validate(url).unwrap().host, "api_1.xn--bcher-kva.example");
}

#[test]
fn targets_have_a_host() {
    for path in ["/http://", "/http:///", "/https://?q", "/http://:80/", "/http://user@/"] {
        assert!(extract_target(&uri(path)).map_or(true, |target| !target.host.is_empty()), "{path}");
    }
    assert!(extract_target(&uri("/http://:80/")).is_err());
}

#[test]
fn port_443_implies_https_before_any_delimiter() {
    for raw in ["a.test:443?x=1", "a.test:443#f", "a.test:443", "a.test:443/p", "a.test:443?u=b/c"] {
        assert_eq!(normalize_scheme(raw).unwrap(), format!("https://{raw}"));
    }
    for raw in ["a.test?x=b:443", "a.test#b:443", "a.test/b:443"] {
        assert_eq!(normalize_scheme(raw).unwrap(), format!("http://{raw}"));
    }
}

#[test]
fn urls_in_a_target_are_not_its_scheme() {
    for raw in ["a.test/r?u=https://b.test/", "example.com/p?u=ftp://x", "a.test?u=ftp://x"] {
        assert_eq!(normalize_scheme(raw).unwrap(), format!("http://{raw}"));
    }
    let target = extract_target(&uri("/?url=example.com/p?u=ftp://x")).unwrap();
    assert_eq!(target.url.text, "http://example.com/p?u=ftp://x");
}

#[test]
fn escapes_are_decoded_once() {
    let target = extract_target(&uri("/?url=http%3A%2f%2Fa.test%2F%252e%zz")).unwrap();
    assert_eq!(target.url.text, "http://a.test/%2e%zz");
    let target = extract_target(&uri("/?url=http://m%C3%BCnchen.de/")).unwrap();
    assert_eq!(target.host, "xn--mnchen-3ya.de");
    assert_eq!(target.url.host.as_deref(), Some("xn--mnchen-3ya.de"));
}

#[test]
fn whatever_stands_for_a_scheme_must_be_a_web_scheme() {
    for (raw, scheme) in [("1ftp://a.test/", "1ftp"), ("foo_bar://x", "foo_bar"), ("://x", "")] {
        let err = normalize_scheme(raw).unwrap_err();
        assert_eq!(reason(err), format!("unsupported scheme `{scheme}`"));
    }
    let err = extract_target(&uri("/a.test:80://x")).unwrap_err();
    assert_eq!(reason(err), "unsupported scheme `a.test:80`");
}
