//! Laws of what clients are told.

use vstd::prelude::*;

use crate::error::ErrorView;
use crate::laws::text::{law_decimal, number};
use crate::net::{ip_text, IpAddr};
use crate::text::dec;

verus! {

/// The status and the identifier that a client gets for each failure: 400 for
/// what is wrong with the request, 403 for what is not allowed, 413 and 429 for
/// what is too much, 502, 503, 504 and 508 for what goes wrong upstream, and 500
/// for what goes wrong here.
pub proof fn law_wire_form(err: ErrorView)
    ensures
        (err.kind().spec_status(), err.kind().spec_as_str()) == match err {
            ErrorView::InvalidUrl(_) => (400u16, "invalid_url"@),
            ErrorView::MissingHeader(_) => (400u16, "missing_required_header"@),
            ErrorView::OriginNotAllowed(_) => (403u16, "origin_not_allowed"@),
            ErrorView::TargetNotAllowed(_) => (403u16, "target_not_allowed"@),
            ErrorView::SsrfBlocked(_) => (403u16, "ssrf_blocked"@),
            ErrorView::Dns { .. } => (502u16, "dns_failure"@),
            ErrorView::Upstream(_) => (502u16, "upstream_unreachable"@),
            ErrorView::UpstreamTimeout => (504u16, "upstream_timeout"@),
            ErrorView::TooManyRedirects(_) => (508u16, "too_many_redirects"@),
            ErrorView::Tls(_) => (502u16, "tls_failure"@),
            ErrorView::PayloadTooLarge => (413u16, "payload_too_large"@),
            ErrorView::RateLimited => (429u16, "rate_limited"@),
            ErrorView::CircuitOpen(_) => (503u16, "circuit_open"@),
            ErrorView::Io(_) => (500u16, "io"@),
            ErrorView::Internal(_) => (500u16, "internal"@),
        },
{
}

/// The text of an error tells its details whole: there is a text around them
/// that does not depend on them.
pub proof fn law_messages_tell_the_details(detail: Seq<char>, host: Seq<char>, n: u8)
    ensures
        ErrorView::InvalidUrl(detail).message() == "invalid target url: "@ + detail,
        ErrorView::MissingHeader(detail).message() == "missing required header: `"@ + detail
            + seq!['`'],
        ErrorView::OriginNotAllowed(detail).message() == "origin `"@ + detail + "` is not allowed"@,
        ErrorView::TargetNotAllowed(detail).message() == "target not allowed: "@ + detail,
        (ErrorView::Dns { host, source: detail }).message() == "dns lookup failed for `"@ + host
            + "`: "@ + detail,
        ErrorView::Upstream(detail).message() == "upstream unreachable: "@ + detail,
        ErrorView::Tls(detail).message() == "tls handshake failed: "@ + detail,
        ErrorView::CircuitOpen(host).message() == "circuit open for `"@ + host + seq!['`'],
        ErrorView::Io(detail).message() == "i/o error: "@ + detail,
        ErrorView::Internal(detail).message() == "internal error: "@ + detail,
        exists|digits: Seq<char>|
            ErrorView::TooManyRedirects(n).message() == "too many redirects (limit "@ + digits
                + seq![')'] && #[trigger] number(digits, 10) == n,
        forall|ip: IpAddr| #[trigger]
            ErrorView::SsrfBlocked(ip).message() == "target resolves to blocked address: "@ + ip_text(
                ip,
            ),
{
    reveal_strlit("`");
    reveal_strlit(")");
    assert("`"@ =~= seq!['`']);
    assert(")"@ =~= seq![')']);
    law_decimal(n as nat);
    assert(number(dec(n as nat), 10) == n);
}

} // verus!
