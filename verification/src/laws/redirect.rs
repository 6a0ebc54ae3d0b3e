//! Laws of redirects.

use vstd::prelude::*;

use crate::basic;
use crate::error::ErrorView;
use crate::header::{ascii_text, first, visible};
use crate::laws::text::{law_lower_forgets_case, same_but_case};
use crate::message::MethodView;
use crate::proxy::headers::views;
use crate::proxy::redirect::{
    hop_to, located, next_hop, sensitive_headers, state_after, HopOutcome, HopView,
};
use crate::proxy::upstream::{FlowOutcome, FlowView};
use crate::uri::{named_scheme, uri_parse, url_join, url_parse, UriView};

verus! {

/// Whether two authorities are there and differ in nothing but case.
pub open spec fn same_authority(a: Option<Seq<char>>, b: Option<Seq<char>>) -> bool {
    a matches Some(x) && (b matches Some(y) && same_but_case(x, y))
}

/// Whether a header may carry credentials, or names the host.
pub open spec fn secret(name: Seq<char>) -> bool {
    ||| name == "authorization"@
    ||| name == "cookie"@
    ||| name == "proxy-authorization"@
    ||| name == "authentication-info"@
    ||| name == "www-authenticate"@
    ||| name == "host"@
}

/// Whether two sets of headers have the same values under `name`.
pub open spec fn same_under(
    a: Map<Seq<char>, Seq<Seq<u8>>>,
    b: Map<Seq<char>, Seq<Seq<u8>>>,
    name: Seq<char>,
) -> bool {
    &&& a.dom().contains(name) <==> b.dom().contains(name)
    &&& a.dom().contains(name) ==> a[name] == b[name]
}

proof fn lemma_secrets(name: Seq<char>)
    ensures
        views(sensitive_headers()).contains(name) <==> secret(name),
        views(basic::redirect::sensitive_headers()).contains(name) <==> (name == "authorization"@
            || name == "cookie"@ || name == "host"@),
{
    let all = views(sensitive_headers());
    assert(all.len() == 6);
    assert(all[0] == "authorization"@);
    assert(all[1] == "cookie"@);
    assert(all[2] == "proxy-authorization"@);
    assert(all[3] == "authentication-info"@);
    assert(all[4] == "www-authenticate"@);
    assert(all[5] == "host"@);
    if all.contains(name) {
        let i = choose|i: int| 0 <= i < all.len() && all[i] == name;
        assert(i == 0 || i == 1 || i == 2 || i == 3 || i == 4 || i == 5);
    }
    let few = views(basic::redirect::sensitive_headers());
    assert(few.len() == 3);
    assert(few[0] == "authorization"@);
    assert(few[1] == "cookie"@);
    assert(few[2] == "host"@);
    if few.contains(name) {
        let i = choose|i: int| 0 <= i < few.len() && few[i] == name;
        assert(i == 0 || i == 1 || i == 2);
    }
}

proof fn lemma_headers_of_hop(
    now: HopView,
    to: UriView,
    status: u16,
    allow_downgrade: bool,
    name: Seq<char>,
)
    ensures
        hop_to(now, to, status, allow_downgrade) matches HopOutcome::Continue(next) ==> {
            &&& next.uri == to
            &&& !same_authority(now.uri.authority, to.authority) && secret(name)
                ==> !next.headers.dom().contains(name)
            &&& same_authority(now.uri.authority, to.authority) || !secret(name) ==> same_under(
                next.headers,
                now.headers,
                name,
            )
        },
{
    lemma_secrets(name);
    if let (Some(x), Some(y)) = (now.uri.authority, to.authority) {
        law_lower_forgets_case(x, y);
    }
}

/// No credentials cross from one host to another: where the authorities of two
/// requests in a row differ in more than the case of their letters, or one has
/// none, the second has none of the headers that may carry credentials, and no
/// `host`.
pub proof fn law_credentials_stay_with_their_host(
    now: HopView,
    status: u16,
    response: Map<Seq<char>, Seq<Seq<u8>>>,
    allow_downgrade: bool,
)
    ensures
        next_hop(now, status, response, allow_downgrade) matches HopOutcome::Continue(next) ==> (
        !same_authority(now.uri.authority, next.uri.authority) ==> {
            &&& !next.headers.dom().contains("authorization"@)
            &&& !next.headers.dom().contains("cookie"@)
            &&& !next.headers.dom().contains("proxy-authorization"@)
            &&& !next.headers.dom().contains("authentication-info"@)
            &&& !next.headers.dom().contains("www-authenticate"@)
            &&& !next.headers.dom().contains("host"@)
        }),
{
    if let HopOutcome::Continue(next) = next_hop(now, status, response, allow_downgrade) {
        let to = located(now.uri, ascii_text(first(response, "location"@)->Some_0))->Ok_0;
        lemma_headers_of_hop(now, to, status, allow_downgrade, "authorization"@);
        lemma_headers_of_hop(now, to, status, allow_downgrade, "cookie"@);
        lemma_headers_of_hop(now, to, status, allow_downgrade, "proxy-authorization"@);
        lemma_headers_of_hop(now, to, status, allow_downgrade, "authentication-info"@);
        lemma_headers_of_hop(now, to, status, allow_downgrade, "www-authenticate"@);
        lemma_headers_of_hop(now, to, status, allow_downgrade, "host"@);
    }
}

/// The same of a whole request: whatever its responses say, no credentials
/// cross from one host to another.
pub proof fn law_credentials_stay_in_a_flow(
    flow: FlowView,
    status: u16,
    response: Map<Seq<char>, Seq<Seq<u8>>>,
)
    ensures
        flow.on_response(status, response) matches FlowOutcome::Send(next) ==> (!same_authority(
            flow.now.uri.authority,
            next.uri.authority,
        ) ==> {
            &&& !next.headers.dom().contains("authorization"@)
            &&& !next.headers.dom().contains("cookie"@)
            &&& !next.headers.dom().contains("proxy-authorization"@)
            &&& !next.headers.dom().contains("authentication-info"@)
            &&& !next.headers.dom().contains("www-authenticate"@)
            &&& !next.headers.dom().contains("host"@)
        }),
{
    law_credentials_stay_with_their_host(flow.now, status, response, flow.allow_downgrade);
}

/// A redirect to a target that is known: the next request goes there, has no
/// credentials on the way to another host, and has every other header as it was
/// and no more.
pub proof fn law_hop_headers(
    now: HopView,
    to: UriView,
    status: u16,
    allow_downgrade: bool,
    name: Seq<char>,
)
    ensures
        hop_to(now, to, status, allow_downgrade) matches HopOutcome::Continue(next) ==> {
            &&& next.uri == to
            &&& !same_authority(now.uri.authority, to.authority) && secret(name)
                ==> !next.headers.dom().contains(name)
            &&& same_authority(now.uri.authority, to.authority) || !secret(name) ==> same_under(
                next.headers,
                now.headers,
                name,
            )
        },
{
    lemma_headers_of_hop(now, to, status, allow_downgrade, name);
}

/// Whether a method carries a body.
pub open spec fn with_body(method: MethodView) -> bool {
    method == MethodView::Post || method == MethodView::Put || method == MethodView::Patch
}

/// A redirect is followed exactly where its target has a web scheme, `https` is
/// not left without leave, and the body is not needed again; the next request is
/// then a `GET` where 301, 302 or 303 answered one with a body, and has the same
/// method otherwise. It is refused exactly for the scheme, and handed to the
/// client exactly for the body.
pub proof fn law_which_redirects_are_followed(
    now: HopView,
    to: UriView,
    status: u16,
    allow_downgrade: bool,
)
    ensures
        ({
            let web = to.scheme == Some("http"@) || to.scheme == Some("https"@);
            let leaves = now.uri.scheme == Some("https"@) && to.scheme == Some("http"@);
            let rewritten = status == 301 || status == 302 || status == 303;
            match hop_to(now, to, status, allow_downgrade) {
                HopOutcome::Fail(err) => err is InvalidUrl && (!web || (leaves && !allow_downgrade)),
                HopOutcome::Stop(_) => web && (!leaves || allow_downgrade) && with_body(now.method)
                    && !rewritten,
                HopOutcome::Continue(next) => {
                    &&& web && (!leaves || allow_downgrade)
                    &&& with_body(now.method) ==> rewritten && next.method == MethodView::Get
                    &&& !with_body(now.method) ==> next.method == now.method
                },
            }
        }),
{
}

/// A `Location` that can be read and that names a scheme leads to the URI that
/// is written there, whatever the last request was; any other is resolved
/// against the last request. What cannot be read leads nowhere, and what cannot
/// be resolved is refused.
pub proof fn law_where_a_location_leads(
    now: HopView,
    status: u16,
    response: Map<Seq<char>, Seq<Seq<u8>>>,
    allow_downgrade: bool,
)
    ensures
        first(response, "location"@) is None ==> next_hop(now, status, response, allow_downgrade)
            is Stop,
        first(response, "location"@) matches Some(value) ==> {
            let text = ascii_text(value);
            let outcome = next_hop(now, status, response, allow_downgrade);
            let target = if named_scheme(text) is Some {
                Ok::<Seq<char>, Seq<char>>(text)
            } else {
                url_join(now.uri.text, text)
            };
            &&& !visible(value) ==> outcome is Stop
            &&& visible(value) && named_scheme(text) is None && url_parse(now.uri.text) is Err
                ==> outcome is Fail
            &&& visible(value) && target is Err ==> outcome is Fail
            &&& visible(value) && (named_scheme(text) is Some || url_parse(now.uri.text) is Ok) ==> (
            target matches Ok(there) ==> match uri_parse(there) {
                Err(_) => outcome is Fail,
                Ok(to) => outcome == hop_to(now, to, status, allow_downgrade),
            })
        },
{
}

/// After a redirect that is followed, the next request is what later ones are
/// made of; after any other, the last request still is.
pub proof fn law_state_moves_on(before: HopView, outcome: HopOutcome)
    ensures
        outcome matches HopOutcome::Continue(next) ==> state_after(before, outcome) == next,
        !(outcome is Continue) ==> state_after(before, outcome) == before,
{
}

/// Why a redirect is refused: for a scheme that is not of the web, for none, or
/// for leaving `https`.
pub proof fn law_refused_redirects_tell_why(
    now: HopView,
    to: UriView,
    status: u16,
    allow_downgrade: bool,
)
    ensures
        hop_to(now, to, status, allow_downgrade) matches HopOutcome::Fail(err) ==> match to.scheme {
            None => err == ErrorView::InvalidUrl("redirect Location lacks a scheme"@),
            Some(scheme) => if scheme == "http"@ || scheme == "https"@ {
                err == ErrorView::InvalidUrl("https → http redirect downgrade rejected"@)
            } else {
                err == ErrorView::InvalidUrl("redirect to unsupported scheme `"@ + scheme + "`"@)
            },
        },
{
}

/// Only the five redirects with a target lead on; any other response is the
/// answer and changes nothing. A redirect too many is an error that tells the
/// budget.
pub proof fn law_which_responses_are_answers(
    flow: FlowView,
    status: u16,
    response: Map<Seq<char>, Seq<Seq<u8>>>,
)
    ensures
        status != 301 && status != 302 && status != 303 && status != 307 && status != 308 ==> {
            &&& flow.on_response(status, response) is Done
            &&& flow.after_response(status, response) == flow
        },
        status == 301 || status == 302 || status == 303 || status == 307 || status == 308 ==> (
        flow.hops >= flow.max_redirects ==> {
            &&& flow.on_response(status, response) == FlowOutcome::Fail(
                ErrorView::TooManyRedirects(flow.max_redirects),
            )
            &&& flow.after_response(status, response) == flow
        }),
{
}

/// Within the budget, a redirect is followed exactly where the policy and the
/// guard admit the request that it leads to; that request is then the one sent,
/// and one hop is counted. A redirect that leads nowhere is the answer.
pub proof fn law_hops_within_the_budget(
    flow: FlowView,
    status: u16,
    response: Map<Seq<char>, Seq<Seq<u8>>>,
)
    requires
        status == 301 || status == 302 || status == 303 || status == 307 || status == 308,
        flow.hops < flow.max_redirects,
    ensures
        match next_hop(flow.now, status, response, flow.allow_downgrade) {
            HopOutcome::Stop(_) => flow.on_response(status, response) is Done
                && flow.after_response(status, response) == flow,
            HopOutcome::Fail(err) => flow.on_response(status, response) == FlowOutcome::Fail(err)
                && flow.after_response(status, response) == flow,
            HopOutcome::Continue(next) => {
                let admitted = flow.policy.uri_verdict(next.uri) is Ok && (
                next.uri.host matches Some(host) ==> flow.guard.host_checked(host) is Ok);
                let after = flow.after_response(status, response);
                &&& after.now == next
                &&& admitted ==> flow.on_response(status, response) == FlowOutcome::Send(next)
                    && after.hops == flow.hops + 1
                &&& !admitted ==> flow.on_response(status, response) is Fail && after.hops
                    == flow.hops
                &&& after.max_redirects == flow.max_redirects
                &&& after.allow_downgrade == flow.allow_downgrade
                &&& after.policy == flow.policy
                &&& after.guard == flow.guard
            },
        },
{
}

/// The smaller engine on the way to another host: `authorization`, `cookie` and
/// `host` are dropped, every other header stays as it was, and to the same host
/// all do. It follows a redirect exactly where the body is not needed again,
/// whatever the scheme.
pub proof fn law_basic_hop(now: HopView, to: UriView, status: u16, name: Seq<char>)
    ensures
        ({
            let rewritten = status == 301 || status == 302 || status == 303;
            let dropped = !same_authority(now.uri.authority, to.authority) && (name
                == "authorization"@ || name == "cookie"@ || name == "host"@);
            match basic::redirect::hop_to(now, to, status) {
                HopOutcome::Fail(_) => false,
                HopOutcome::Stop(_) => with_body(now.method) && !rewritten,
                HopOutcome::Continue(next) => {
                    &&& with_body(now.method) ==> rewritten && next.method == MethodView::Get
                    &&& !with_body(now.method) ==> next.method == now.method
                    &&& next.uri == to
                    &&& dropped ==> !next.headers.dom().contains(name)
                    &&& !dropped ==> same_under(next.headers, now.headers, name)
                },
            }
        }),
{
    lemma_secrets(name);
    if let (Some(x), Some(y)) = (now.uri.authority, to.authority) {
        law_lower_forgets_case(x, y);
    }
}

/// The smaller engine goes where the larger one does: what a response leads to
/// is the same target, or none, for both.
pub proof fn law_basic_location(now: HopView, status: u16, response: Map<Seq<char>, Seq<Seq<u8>>>)
    ensures
        match (
            basic::redirect::next_hop(now, status, response),
            next_hop(now, status, response, true),
        ) {
            (HopOutcome::Continue(a), HopOutcome::Continue(b)) => a.uri == b.uri && a.method
                == b.method,
            (HopOutcome::Continue(a), HopOutcome::Fail(_)) => a.uri.scheme != Some("http"@)
                && a.uri.scheme != Some("https"@),
            (HopOutcome::Continue(_), HopOutcome::Stop(_)) => false,
            (HopOutcome::Stop(_), b) => b !is Continue,
            (HopOutcome::Fail(a), b) => b == HopOutcome::Fail(a),
        },
{
}

} // verus!
