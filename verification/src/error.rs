//! Unified error taxonomy of the proxy.
//!
//! Each [`ProxyError`] has a stable machine-readable [`ErrorKind`], which is
//! shown in the `x-corx-status` response header and in the error body. The
//! HTTP status code is a function of the kind alone.

use vstd::prelude::*;

use crate::net::{ip_text, show_ip, IpAddr};
use crate::text::{concat, concat3, dec, decimal};

verus! {

/// Name of the header that carries the machine-readable error kind.
pub const STATUS_HEADER: &'static str = "x-corx-status";

/// Stable machine-readable identifier of a failure mode.
#[derive(Clone, Copy, Debug, PartialEq, Eq, Structural)]
pub enum ErrorKind {
    /// The target URL could not be parsed or violates policy.
    InvalidUrl,
    /// The request lacks a required header.
    MissingRequiredHeader,
    /// The `Origin` header is not allowed by the configured policy.
    OriginNotAllowed,
    /// The target host or scheme is refused by the target policy.
    TargetNotAllowed,
    /// The target host resolves to a blocked address range.
    SsrfBlocked,
    /// The target host could not be resolved.
    DnsFailure,
    /// The upstream connection was refused or reset.
    UpstreamUnreachable,
    /// The upstream request timed out.
    UpstreamTimeout,
    /// The upstream returned too many redirect hops.
    TooManyRedirects,
    /// A TLS handshake with the upstream failed.
    TlsFailure,
    /// The request payload exceeded the configured limit.
    PayloadTooLarge,
    /// The client exceeded its rate limit budget.
    RateLimited,
    /// The circuit breaker of the target host is open.
    CircuitOpen,
    /// A server-side I/O error occurred.
    Io,
    /// An uncategorised internal error.
    Internal,
}

impl ErrorKind {
    /// The HTTP status code of the kind.
    pub open spec fn spec_status(self) -> u16 {
        match self {
            ErrorKind::InvalidUrl | ErrorKind::MissingRequiredHeader => 400,
            ErrorKind::OriginNotAllowed | ErrorKind::SsrfBlocked => 403,
            ErrorKind::TargetNotAllowed => 403,
            ErrorKind::DnsFailure => 502,
            ErrorKind::UpstreamUnreachable | ErrorKind::TlsFailure => 502,
            ErrorKind::UpstreamTimeout => 504,
            ErrorKind::TooManyRedirects => 508,
            ErrorKind::PayloadTooLarge => 413,
            ErrorKind::RateLimited => 429,
            ErrorKind::CircuitOpen => 503,
            ErrorKind::Io | ErrorKind::Internal => 500,
        }
    }

    /// The identifier of the kind as exposed on the wire.
    pub open spec fn spec_as_str(self) -> Seq<char> {
        match self {
            ErrorKind::InvalidUrl => "invalid_url"@,
            ErrorKind::MissingRequiredHeader => "missing_required_header"@,
            ErrorKind::OriginNotAllowed => "origin_not_allowed"@,
            ErrorKind::TargetNotAllowed => "target_not_allowed"@,
            ErrorKind::SsrfBlocked => "ssrf_blocked"@,
            ErrorKind::DnsFailure => "dns_failure"@,
            ErrorKind::UpstreamUnreachable => "upstream_unreachable"@,
            ErrorKind::UpstreamTimeout => "upstream_timeout"@,
            ErrorKind::TooManyRedirects => "too_many_redirects"@,
            ErrorKind::TlsFailure => "tls_failure"@,
            ErrorKind::PayloadTooLarge => "payload_too_large"@,
            ErrorKind::RateLimited => "rate_limited"@,
            ErrorKind::CircuitOpen => "circuit_open"@,
            ErrorKind::Io => "io"@,
            ErrorKind::Internal => "internal"@,
        }
    }

    /// Maps the kind onto the HTTP status code returned to the client.
    pub fn status(self) -> (r: u16)
        ensures
            r == self.spec_status(),
    {
        match self {
            ErrorKind::InvalidUrl | ErrorKind::MissingRequiredHeader => 400,
            ErrorKind::OriginNotAllowed | ErrorKind::SsrfBlocked => 403,
            ErrorKind::TargetNotAllowed => 403,
            ErrorKind::DnsFailure => 502,
            ErrorKind::UpstreamUnreachable | ErrorKind::TlsFailure => 502,
            ErrorKind::UpstreamTimeout => 504,
            ErrorKind::TooManyRedirects => 508,
            ErrorKind::PayloadTooLarge => 413,
            ErrorKind::RateLimited => 429,
            ErrorKind::CircuitOpen => 503,
            ErrorKind::Io | ErrorKind::Internal => 500,
        }
    }

    /// Machine-readable identifier as exposed on the wire.
    pub fn as_str(self) -> (r: &'static str)
        ensures
            r@ == self.spec_as_str(),
    {
        match self {
            ErrorKind::InvalidUrl => "invalid_url",
            ErrorKind::MissingRequiredHeader => "missing_required_header",
            ErrorKind::OriginNotAllowed => "origin_not_allowed",
            ErrorKind::TargetNotAllowed => "target_not_allowed",
            ErrorKind::SsrfBlocked => "ssrf_blocked",
            ErrorKind::DnsFailure => "dns_failure",
            ErrorKind::UpstreamUnreachable => "upstream_unreachable",
            ErrorKind::UpstreamTimeout => "upstream_timeout",
            ErrorKind::TooManyRedirects => "too_many_redirects",
            ErrorKind::TlsFailure => "tls_failure",
            ErrorKind::PayloadTooLarge => "payload_too_large",
            ErrorKind::RateLimited => "rate_limited",
            ErrorKind::CircuitOpen => "circuit_open",
            ErrorKind::Io => "io",
            ErrorKind::Internal => "internal",
        }
    }
}

/// Top-level error of the proxy. What an outside component reported is kept
/// as its text.
#[derive(Clone, Debug)]
pub enum ProxyError {
    /// The target URL is malformed, uses an unsupported scheme, or lacks a
    /// required component.
    InvalidUrl(String),
    /// The inbound request lacks a header that the operator requires.
    MissingHeader(&'static str),
    /// The inbound `Origin` is not allowed by the configured policy.
    OriginNotAllowed(String),
    /// The target host or scheme is refused by the target policy.
    TargetNotAllowed(String),
    /// The resolved target address lies in a blocked range.
    SsrfBlocked(IpAddr),
    /// Name resolution failed for the target host.
    Dns {
        /// The host that was being resolved.
        host: String,
        /// What the resolver reported.
        source: String,
    },
    /// The upstream server could not be reached.
    Upstream(String),
    /// A request to the upstream timed out.
    UpstreamTimeout,
    /// The redirect budget, given here, was exceeded.
    TooManyRedirects(u8),
    /// The TLS handshake with the upstream failed.
    Tls(String),
    /// The request or response body exceeded the configured limits.
    PayloadTooLarge,
    /// The request was rate-limited.
    RateLimited,
    /// The circuit breaker of this host is open.
    CircuitOpen(String),
    /// Low-level I/O failure.
    Io(String),
    /// Any other failure.
    Internal(String),
}

/// The mathematical content of a [`ProxyError`].
pub enum ErrorView {
    /// See [`ProxyError::InvalidUrl`].
    InvalidUrl(Seq<char>),
    /// See [`ProxyError::MissingHeader`].
    MissingHeader(Seq<char>),
    /// See [`ProxyError::OriginNotAllowed`].
    OriginNotAllowed(Seq<char>),
    /// See [`ProxyError::TargetNotAllowed`].
    TargetNotAllowed(Seq<char>),
    /// See [`ProxyError::SsrfBlocked`].
    SsrfBlocked(IpAddr),
    /// See [`ProxyError::Dns`].
    Dns {
        /// The host that was being resolved.
        host: Seq<char>,
        /// What the resolver reported.
        source: Seq<char>,
    },
    /// See [`ProxyError::Upstream`].
    Upstream(Seq<char>),
    /// See [`ProxyError::UpstreamTimeout`].
    UpstreamTimeout,
    /// See [`ProxyError::TooManyRedirects`].
    TooManyRedirects(u8),
    /// See [`ProxyError::Tls`].
    Tls(Seq<char>),
    /// See [`ProxyError::PayloadTooLarge`].
    PayloadTooLarge,
    /// See [`ProxyError::RateLimited`].
    RateLimited,
    /// See [`ProxyError::CircuitOpen`].
    CircuitOpen(Seq<char>),
    /// See [`ProxyError::Io`].
    Io(Seq<char>),
    /// See [`ProxyError::Internal`].
    Internal(Seq<char>),
}

impl View for ProxyError {
    type V = ErrorView;

    open spec fn view(&self) -> ErrorView {
        match *self {
            ProxyError::InvalidUrl(m) => ErrorView::InvalidUrl(m@),
            ProxyError::MissingHeader(m) => ErrorView::MissingHeader(m@),
            ProxyError::OriginNotAllowed(m) => ErrorView::OriginNotAllowed(m@),
            ProxyError::TargetNotAllowed(m) => ErrorView::TargetNotAllowed(m@),
            ProxyError::SsrfBlocked(ip) => ErrorView::SsrfBlocked(ip),
            ProxyError::Dns { host, source } => ErrorView::Dns { host: host@, source: source@ },
            ProxyError::Upstream(m) => ErrorView::Upstream(m@),
            ProxyError::UpstreamTimeout => ErrorView::UpstreamTimeout,
            ProxyError::TooManyRedirects(n) => ErrorView::TooManyRedirects(n),
            ProxyError::Tls(m) => ErrorView::Tls(m@),
            ProxyError::PayloadTooLarge => ErrorView::PayloadTooLarge,
            ProxyError::RateLimited => ErrorView::RateLimited,
            ProxyError::CircuitOpen(m) => ErrorView::CircuitOpen(m@),
            ProxyError::Io(m) => ErrorView::Io(m@),
            ProxyError::Internal(m) => ErrorView::Internal(m@),
        }
    }
}

impl ErrorView {
    /// The kind of the error.
    pub open spec fn kind(self) -> ErrorKind {
        match self {
            ErrorView::InvalidUrl(_) => ErrorKind::InvalidUrl,
            ErrorView::MissingHeader(_) => ErrorKind::MissingRequiredHeader,
            ErrorView::OriginNotAllowed(_) => ErrorKind::OriginNotAllowed,
            ErrorView::TargetNotAllowed(_) => ErrorKind::TargetNotAllowed,
            ErrorView::SsrfBlocked(_) => ErrorKind::SsrfBlocked,
            ErrorView::Dns { .. } => ErrorKind::DnsFailure,
            ErrorView::Upstream(_) => ErrorKind::UpstreamUnreachable,
            ErrorView::UpstreamTimeout => ErrorKind::UpstreamTimeout,
            ErrorView::TooManyRedirects(_) => ErrorKind::TooManyRedirects,
            ErrorView::Tls(_) => ErrorKind::TlsFailure,
            ErrorView::PayloadTooLarge => ErrorKind::PayloadTooLarge,
            ErrorView::RateLimited => ErrorKind::RateLimited,
            ErrorView::CircuitOpen(_) => ErrorKind::CircuitOpen,
            ErrorView::Io(_) => ErrorKind::Io,
            ErrorView::Internal(_) => ErrorKind::Internal,
        }
    }

    /// The human-readable text of the error.
    pub open spec fn message(self) -> Seq<char> {
        match self {
            ErrorView::InvalidUrl(m) => "invalid target url: "@ + m,
            ErrorView::MissingHeader(m) => "missing required header: `"@ + m + "`"@,
            ErrorView::OriginNotAllowed(m) => "origin `"@ + m + "` is not allowed"@,
            ErrorView::TargetNotAllowed(m) => "target not allowed: "@ + m,
            ErrorView::SsrfBlocked(ip) => "target resolves to blocked address: "@ + ip_text(ip),
            ErrorView::Dns { host, source } => "dns lookup failed for `"@ + host + "`: "@ + source,
            ErrorView::Upstream(m) => "upstream unreachable: "@ + m,
            ErrorView::UpstreamTimeout => "upstream timed out"@,
            ErrorView::TooManyRedirects(n) => "too many redirects (limit "@ + dec(n as nat) + ")"@,
            ErrorView::Tls(m) => "tls handshake failed: "@ + m,
            ErrorView::PayloadTooLarge => "payload too large"@,
            ErrorView::RateLimited => "rate limited"@,
            ErrorView::CircuitOpen(m) => "circuit open for `"@ + m + "`"@,
            ErrorView::Io(m) => "i/o error: "@ + m,
            ErrorView::Internal(m) => "internal error: "@ + m,
        }
    }
}

/// What is sent to a client whose request failed.
#[derive(Clone, Debug)]
pub struct ErrorReply {
    /// HTTP status code.
    pub status: u16,
    /// Value of the [`STATUS_HEADER`] header, and of `error` in the body.
    pub error: &'static str,
    /// Value of `message` in the body.
    pub message: String,
}

impl ProxyError {
    /// Classifies the error for exposure on the wire.
    pub fn kind(&self) -> (r: ErrorKind)
        ensures
            r == self@.kind(),
    {
        match self {
            ProxyError::InvalidUrl(_) => ErrorKind::InvalidUrl,
            ProxyError::MissingHeader(_) => ErrorKind::MissingRequiredHeader,
            ProxyError::OriginNotAllowed(_) => ErrorKind::OriginNotAllowed,
            ProxyError::TargetNotAllowed(_) => ErrorKind::TargetNotAllowed,
            ProxyError::SsrfBlocked(_) => ErrorKind::SsrfBlocked,
            ProxyError::Dns { .. } => ErrorKind::DnsFailure,
            ProxyError::Upstream(_) => ErrorKind::UpstreamUnreachable,
            ProxyError::UpstreamTimeout => ErrorKind::UpstreamTimeout,
            ProxyError::TooManyRedirects(_) => ErrorKind::TooManyRedirects,
            ProxyError::Tls(_) => ErrorKind::TlsFailure,
            ProxyError::PayloadTooLarge => ErrorKind::PayloadTooLarge,
            ProxyError::RateLimited => ErrorKind::RateLimited,
            ProxyError::CircuitOpen(_) => ErrorKind::CircuitOpen,
            ProxyError::Io(_) => ErrorKind::Io,
            ProxyError::Internal(_) => ErrorKind::Internal,
        }
    }

    /// The human-readable text of the error.
    pub fn message(&self) -> (r: String)
        ensures
            r@ == self@.message(),
    {
        match self {
            ProxyError::InvalidUrl(m) => concat("invalid target url: ", m),
            ProxyError::MissingHeader(m) => concat3("missing required header: `", m, "`"),
            ProxyError::OriginNotAllowed(m) => concat3("origin `", m, "` is not allowed"),
            ProxyError::TargetNotAllowed(m) => concat("target not allowed: ", m),
            ProxyError::SsrfBlocked(ip) => {
                let shown = show_ip(ip);
                concat("target resolves to blocked address: ", &shown)
            },
            ProxyError::Dns { host, source } => {
                let head = concat3("dns lookup failed for `", host, "`: ");
                concat(&head, source)
            },
            ProxyError::Upstream(m) => concat("upstream unreachable: ", m),
            ProxyError::UpstreamTimeout => "upstream timed out".to_owned(),
            ProxyError::TooManyRedirects(n) => {
                let limit = decimal(*n as u64);
                concat3("too many redirects (limit ", &limit, ")")
            },
            ProxyError::Tls(m) => concat("tls handshake failed: ", m),
            ProxyError::PayloadTooLarge => "payload too large".to_owned(),
            ProxyError::RateLimited => "rate limited".to_owned(),
            ProxyError::CircuitOpen(m) => concat3("circuit open for `", m, "`"),
            ProxyError::Io(m) => concat("i/o error: ", m),
            ProxyError::Internal(m) => concat("internal error: ", m),
        }
    }

    /// What the client is told: the status of the kind, the identifier of the
    /// kind, and the text.
    pub fn reply(&self) -> (r: ErrorReply)
        ensures
            r.status == self@.kind().spec_status(),
            r.error@ == self@.kind().spec_as_str(),
            r.message@ == self@.message(),
    {
        let kind = self.kind();
        ErrorReply { status: kind.status(), error: kind.as_str(), message: self.message() }
    }
}

/// Shorthand for the results of the proxy.
pub type ProxyResult<T> = Result<T, ProxyError>;

/// Reveals the identifiers of all kinds.
proof fn lemma_identifiers()
    ensures
        "invalid_url"@.len() == 11,
        "missing_required_header"@.len() == 23,
        "origin_not_allowed"@.len() == 18,
        "target_not_allowed"@.len() == 18,
        "ssrf_blocked"@.len() == 12,
        "dns_failure"@.len() == 11,
        "upstream_unreachable"@.len() == 20,
        "upstream_timeout"@.len() == 16,
        "too_many_redirects"@.len() == 18,
        "tls_failure"@.len() == 11,
        "payload_too_large"@.len() == 17,
        "rate_limited"@.len() == 12,
        "circuit_open"@.len() == 12,
        "io"@.len() == 2,
        "internal"@.len() == 8,
        "invalid_url"@[0] == 'i',
        "dns_failure"@[0] == 'd',
        "tls_failure"@[0] == 't',
        "origin_not_allowed"@[0] == 'o',
        "target_not_allowed"@[1] == 'a',
        "origin_not_allowed"@[1] == 'r',
        "too_many_redirects"@[1] == 'o',
        "ssrf_blocked"@[0] == 's',
        "rate_limited"@[0] == 'r',
        "circuit_open"@[0] == 'c',
{
    reveal_strlit("invalid_url");
    reveal_strlit("missing_required_header");
    reveal_strlit("origin_not_allowed");
    reveal_strlit("target_not_allowed");
    reveal_strlit("ssrf_blocked");
    reveal_strlit("dns_failure");
    reveal_strlit("upstream_unreachable");
    reveal_strlit("upstream_timeout");
    reveal_strlit("too_many_redirects");
    reveal_strlit("tls_failure");
    reveal_strlit("payload_too_large");
    reveal_strlit("rate_limited");
    reveal_strlit("circuit_open");
    reveal_strlit("io");
    reveal_strlit("internal");
}

/// Identifiers tell kinds apart: no two kinds share one.
pub proof fn law_identifiers_are_unique(a: ErrorKind, b: ErrorKind)
    requires
        a != b,
    ensures
        a.spec_as_str() != b.spec_as_str(),
{
    lemma_identifiers();
}

/// The status depends on the kind alone.
pub proof fn law_status_goes_by_kind(a: ErrorView, b: ErrorView)
    requires
        a.kind().spec_as_str() == b.kind().spec_as_str(),
    ensures
        a.kind().spec_status() == b.kind().spec_status(),
{
    if a.kind() != b.kind() {
        law_identifiers_are_unique(a.kind(), b.kind());
    }
}

} // verus!
