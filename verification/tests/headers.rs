//! The header filter.

use corx::proxy::headers::HeaderFilter;
use http::HeaderMap;

#[test]
fn hop_by_hop_headers_are_stripped() {
    let filter = HeaderFilter::new(&[]);
    let mut headers = HeaderMap::new();
    headers.insert("connection", "close".parse().unwrap());
    headers.insert("keep-alive", "timeout=5".parse().unwrap());
    headers.insert("x-forwarded-for", "1.2.3.4".parse().unwrap());

    filter.apply(&mut headers);

    assert!(!headers.contains_key("connection"));
    assert!(!headers.contains_key("keep-alive"));
    assert!(headers.contains_key("x-forwarded-for"));
}

#[test]
fn connection_listed_headers_are_stripped() {
    let filter = HeaderFilter::new(&[]);
    let mut headers = HeaderMap::new();
    headers.insert("connection", "close, x-custom".parse().unwrap());
    headers.insert("x-custom", "should-be-removed".parse().unwrap());
    headers.insert("x-keep", "yes".parse().unwrap());

    filter.apply(&mut headers);

    assert!(!headers.contains_key("x-custom"));
    assert!(headers.contains_key("x-keep"));
}

#[test]
fn extra_deny_list_is_honoured() {
    let filter = HeaderFilter::new(&["cookie".into(), "authorization".into()]);
    let mut headers = HeaderMap::new();
    headers.insert("cookie", "a=b".parse().unwrap());
    headers.insert("authorization", "Bearer token".parse().unwrap());
    headers.insert("content-type", "application/json".parse().unwrap());

    filter.apply(&mut headers);

    assert!(!headers.contains_key("cookie"));
    assert!(!headers.contains_key("authorization"));
    assert!(headers.contains_key("content-type"));
}

#[test]
fn names_are_taken_in_any_case() {
    let filter = HeaderFilter::new(&["X-Secret".into(), "not a name".into(), "".into()]);
    let mut headers = HeaderMap::new();
    headers.insert("x-secret", "1".parse().unwrap());
    headers.append("x-secret", "2".parse().unwrap());
    headers.insert("connection", " X-Hop ,, bad name,X-Other".parse().unwrap());
    headers.insert("x-hop", "1".parse().unwrap());
    headers.insert("x-other", "1".parse().unwrap());
    headers.insert("x-keep", "1".parse().unwrap());

    filter.apply(&mut headers);

    assert_eq!(headers.len(), 1);
    assert_eq!(headers.get("x-keep").unwrap(), "1");
}

#[test]
fn all_values_of_other_headers_are_kept() {
    let filter = HeaderFilter::new(&[]);
    let mut headers = HeaderMap::new();
    headers.append("via", "a".parse().unwrap());
    headers.append("via", "b".parse().unwrap());
    filter.apply(&mut headers);
    let values: Vec<&str> = headers.get_all("via").iter().map(|v| v.to_str().unwrap()).collect();
    assert_eq!(values, vec!["a", "b"]);
}

#[test]
fn unreadable_connection_header_lists_nothing() {
    let filter = HeaderFilter::new(&[]);
    let mut headers = HeaderMap::new();
    headers.insert("connection", http::HeaderValue::from_bytes(b"x-a\xff").unwrap());
    headers.insert("x-a", "1".parse().unwrap());
    filter.apply(&mut headers);
    assert!(!headers.contains_key("connection"));
    assert!(headers.contains_key("x-a"));
}

#[test]
fn filtering_twice_is_filtering_once() {
    let filter = HeaderFilter::new(&["x-deny".into()]).clone();
    let mut headers = HeaderMap::new();
    headers.insert("connection", "x-a".parse().unwrap());
    headers.insert("x-a", "1".parse().unwrap());
    headers.insert("x-deny", "1".parse().unwrap());
    headers.insert("x-b", "1".parse().unwrap());
    filter.apply(&mut headers);
    let once = headers.clone();
    filter.apply(&mut headers);
    assert_eq!(headers, once);
    assert_eq!(headers.len(), 1);
}

#[test]
fn every_connection_value_counts() {
    let filter = HeaderFilter::new(&[]);
    let mut headers = HeaderMap::new();
    headers.append("connection", "close".parse().unwrap());
    headers.append("connection", http::HeaderValue::from_bytes(b"\xff").unwrap());
    headers.append("connection", "x-custom , X-More".parse().unwrap());
    headers.insert("x-custom", "1".parse().unwrap());
    headers.insert("x-more", "1".parse().unwrap());
    headers.insert("x-keep", "1".parse().unwrap());
    filter.apply(&mut headers);
    assert_eq!(headers.len(), 1);
    assert!(headers.contains_key("x-keep"));
}
