//! The error taxonomy.

use corx::error::{ErrorKind, ProxyError, STATUS_HEADER};
use corx::net::IpAddr;

fn all() -> Vec<(ProxyError, u16, &'static str, &'static str)> {
    vec![
        (ProxyError::InvalidUrl("x".into()), 400, "invalid_url", "invalid target url: x"),
        (
            ProxyError::MissingHeader("origin"),
            400,
            "missing_required_header",
            "missing required header: `origin`",
        ),
        (
            ProxyError::OriginNotAllowed("o".into()),
            403,
            "origin_not_allowed",
            "origin `o` is not allowed",
        ),
        (
            ProxyError::TargetNotAllowed("t".into()),
            403,
            "target_not_allowed",
            "target not allowed: t",
        ),
        (
            ProxyError::SsrfBlocked(IpAddr::v4(10, 0, 0, 1)),
            403,
            "ssrf_blocked",
            "target resolves to blocked address: 10.0.0.1",
        ),
        (
            ProxyError::Dns { host: "h".into(), source: "s".into() },
            502,
            "dns_failure",
            "dns lookup failed for `h`: s",
        ),
        (
            ProxyError::Upstream("u".into()),
            502,
            "upstream_unreachable",
            "upstream unreachable: u",
        ),
        (ProxyError::UpstreamTimeout, 504, "upstream_timeout", "upstream timed out"),
        (
            ProxyError::TooManyRedirects(255),
            508,
            "too_many_redirects",
            "too many redirects (limit 255)",
        ),
        (ProxyError::Tls("t".into()), 502, "tls_failure", "tls handshake failed: t"),
        (ProxyError::PayloadTooLarge, 413, "payload_too_large", "payload too large"),
        (ProxyError::RateLimited, 429, "rate_limited", "rate limited"),
        (ProxyError::CircuitOpen("h".into()), 503, "circuit_open", "circuit open for `h`"),
        (ProxyError::Io("i".into()), 500, "io", "i/o error: i"),
        (ProxyError::Internal("i".into()), 500, "internal", "internal error: i"),
    ]
}

#[test]
fn replies_carry_status_identifier_and_text() {
    for (err, status, id, text) in all() {
        let reply = err.reply();
        assert_eq!(reply.status, status);
        assert_eq!(reply.error, id);
        assert_eq!(reply.message, text);
        assert_eq!(err.message(), text);
        assert_eq!(err.kind().as_str(), id);
        assert_eq!(err.kind().status(), status);
    }
}

#[test]
fn identifiers_are_unique_header_values() {
    let mut seen: Vec<&'static str> = vec![];
    for (err, _, _, _) in all() {
        let id = err.kind().as_str();
        assert!(!seen.contains(&id));
        assert!(http::HeaderValue::from_str(id).is_ok());
        seen.push(id);
    }
    assert_eq!(seen.len(), 15);
    assert!(http::HeaderName::from_bytes(STATUS_HEADER.as_bytes()).is_ok());
}

#[test]
fn addresses_are_shown_in_full() {
    let err = ProxyError::SsrfBlocked(IpAddr::V6(1));
    assert_eq!(err.message(), "target resolves to blocked address: ::1");
    assert_eq!(err.kind(), ErrorKind::SsrfBlocked);
}
