//! The forwarding headers.

use corx::config::ForwardedConfig;
use corx::net::IpAddr;
use corx::proxy::forwarded::{
    build_forwarded_value, inject, inject_with_id, InboundContext, REQUEST_ID_HEADER,
};
use corx::proxy::url_parser::{extract_target, TargetUrl};
use corx::uri::Uri;
use http::HeaderMap;
use std::str::FromStr;

fn target() -> TargetUrl {
    extract_target(&Uri::parse("/https://api.example.com/v1").unwrap()).unwrap()
}

fn cfg() -> ForwardedConfig {
    ForwardedConfig { inject: true, trust_inbound_xff: false, inject_request_id: true }
}

fn from_peer<'a>(scheme: &'a str, host: Option<&'a str>, local_port: u16) -> InboundContext<'a> {
    InboundContext { client_ip: Some(IpAddr::v4(203, 0, 113, 5)), scheme, host, local_port }
}

fn anonymous() -> InboundContext<'static> {
    InboundContext { client_ip: None, scheme: "https", host: None, local_port: 443 }
}

#[test]
fn injects_xff_proto_host_port() {
    let mut headers = HeaderMap::new();
    let inbound = from_peer("https", Some("proxy.example"), 8080);
    inject(&mut headers, inbound, &target(), &cfg());
    assert_eq!(headers.get("x-forwarded-for").unwrap(), "203.0.113.5");
    assert_eq!(headers.get("x-forwarded-proto").unwrap(), "https");
    assert_eq!(headers.get("x-forwarded-host").unwrap(), "proxy.example");
    assert_eq!(headers.get("x-forwarded-port").unwrap(), "8080");
    let forwarded = headers.get("forwarded").unwrap().to_str().unwrap();
    assert!(forwarded.contains("for=203.0.113.5"));
    assert!(forwarded.contains("proto=https"));
    assert!(forwarded.contains("host=proxy.example"));
}

#[test]
fn replaces_inbound_xff_by_default() {
    let mut headers = HeaderMap::new();
    headers.insert("x-forwarded-for", "1.2.3.4, 5.6.7.8".parse().unwrap());
    inject(&mut headers, from_peer("http", None, 80), &target(), &cfg());
    assert_eq!(headers.get("x-forwarded-for").unwrap(), "203.0.113.5");
}

#[test]
fn appends_when_trusted() {
    let mut headers = HeaderMap::new();
    headers.insert("x-forwarded-for", "1.2.3.4".parse().unwrap());
    let mut cfg = cfg();
    cfg.trust_inbound_xff = true;
    inject(&mut headers, from_peer("http", None, 80), &target(), &cfg);
    assert_eq!(headers.get("x-forwarded-for").unwrap(), "1.2.3.4, 203.0.113.5");
}

#[test]
fn generates_request_id_when_missing() {
    let mut headers = HeaderMap::new();
    inject(&mut headers, anonymous(), &target(), &cfg());
    let id = headers.get(REQUEST_ID_HEADER).unwrap().to_str().unwrap();
    // A UUID is 36 characters long, with dashes.
    assert_eq!(id.len(), 36);
    assert!(uuid::Uuid::from_str(id).is_ok());
}

#[test]
fn preserves_inbound_request_id() {
    let mut headers = HeaderMap::new();
    headers.insert("x-request-id", "client-supplied".parse().unwrap());
    inject(&mut headers, anonymous(), &target(), &cfg());
    assert_eq!(headers.get("x-request-id").unwrap(), "client-supplied");
}

#[test]
fn generated_ids_are_version_seven_and_differ() {
    let mut ids: Vec<String> = vec![];
    for _ in 0..3 {
        let mut headers = HeaderMap::new();
        inject(&mut headers, anonymous(), &target(), &cfg());
        let id = headers.get("x-request-id").unwrap().to_str().unwrap().to_owned();
        assert_eq!(&id[14..15], "7");
        assert_eq!(id.to_lowercase(), id);
        assert!(!ids.contains(&id));
        ids.push(id);
    }
}

#[test]
fn forwarded_elements_are_ordered() {
    let inbound = from_peer("https", Some("proxy.example"), 8080);
    assert_eq!(
        build_forwarded_value(inbound, &target()),
        "for=203.0.113.5;proto=https;host=proxy.example;by=api.example.com"
    );
    assert_eq!(build_forwarded_value(anonymous(), &target()), "proto=https;by=api.example.com");
}

#[test]
fn ipv6_peers_are_bracketed_and_quoted() {
    let mut inbound = anonymous();
    inbound.client_ip = Some(IpAddr::V6(1));
    assert_eq!(
        build_forwarded_value(inbound, &target()),
        "for=\"[::1]\";proto=https;by=api.example.com"
    );
}

#[test]
fn switches_are_honoured() {
    let mut headers = HeaderMap::new();
    let off = ForwardedConfig { inject: false, trust_inbound_xff: false, inject_request_id: false };
    inject(&mut headers, from_peer("https", None, 1), &target(), &off);
    assert!(headers.is_empty());
    let only_id = ForwardedConfig { inject_request_id: true, ..off };
    inject_with_id(&mut headers, from_peer("https", None, 1), &target(), &only_id, "id-1");
    assert_eq!(headers.len(), 1);
    assert_eq!(headers.get("x-request-id").unwrap(), "id-1");
}

#[test]
fn injecting_twice_is_injecting_once() {
    let mut headers = HeaderMap::new();
    let inbound = from_peer("https", Some("proxy.example"), 8080);
    inject(&mut headers, inbound, &target(), &cfg());
    let once = headers.clone();
    inject(&mut headers, inbound, &target(), &cfg());
    assert_eq!(headers, once);
}

#[test]
fn trusted_chains_end_in_the_peer_once() {
    let mut cfg = cfg();
    cfg.trust_inbound_xff = true;
    let inbound = from_peer("http", None, 80);
    for chain in ["1.2.3.4", "203.0.113.5, 1.2.3.4", "x203.0.113.5"] {
        let mut headers = HeaderMap::new();
        headers.insert("x-forwarded-for", chain.parse().unwrap());
        inject(&mut headers, inbound, &target(), &cfg);
        let once = headers.clone();
        let want = format!("{chain}, 203.0.113.5");
        assert_eq!(once.get("x-forwarded-for").unwrap().to_str().unwrap(), want);
        inject(&mut headers, inbound, &target(), &cfg);
        assert_eq!(headers, once);
    }
    let mut headers = HeaderMap::new();
    inject(&mut headers, inbound, &target(), &cfg);
    inject(&mut headers, inbound, &target(), &cfg);
    assert_eq!(headers.get("x-forwarded-for").unwrap(), "203.0.113.5");
    headers.insert("x-forwarded-for", "1.2.3.4,203.0.113.5 ".parse().unwrap());
    inject(&mut headers, inbound, &target(), &cfg);
    assert_eq!(headers.get("x-forwarded-for").unwrap(), "1.2.3.4,203.0.113.5 ");
}

#[test]
fn trusted_chains_keep_every_value() {
    let mut cfg = cfg();
    cfg.trust_inbound_xff = true;
    let mut headers = HeaderMap::new();
    headers.append("x-forwarded-for", "1.2.3.4".parse().unwrap());
    headers.append("x-forwarded-for", http::HeaderValue::from_bytes(b"\xff").unwrap());
    headers.append("x-forwarded-for", "5.6.7.8".parse().unwrap());
    inject(&mut headers, from_peer("http", None, 80), &target(), &cfg);
    let values: Vec<&http::HeaderValue> = headers.get_all("x-forwarded-for").iter().collect();
    assert_eq!(values, vec!["1.2.3.4, 5.6.7.8, 203.0.113.5"]);
}

#[test]
fn unusable_values_are_left_out() {
    let mut headers = HeaderMap::new();
    headers.insert("x-forwarded-for", http::HeaderValue::from_bytes(b"\xff").unwrap());
    let mut cfg = cfg();
    cfg.trust_inbound_xff = true;
    let inbound = from_peer("ht\ntp", Some("a\u{7f}b"), 80);
    inject(&mut headers, inbound, &target(), &cfg);
    assert_eq!(headers.get("x-forwarded-for").unwrap(), "203.0.113.5");
    assert!(headers.get("x-forwarded-proto").is_none());
    assert!(headers.get("x-forwarded-host").is_none());
    assert!(headers.get("forwarded").is_none());
    assert_eq!(headers.get("x-forwarded-port").unwrap(), "80");
}

#[test]
fn defaults_inject_without_trust() {
    assert_eq!(ForwardedConfig::default(), cfg());
}
