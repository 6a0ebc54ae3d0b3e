//! Manual redirect handling.
//!
//! Redirects are followed inside the proxy, so that a redirect to another
//! origin cannot get around the policy on the first hop, and so that secrets
//! of one origin are dropped on the way to another. [`RedirectState`] keeps
//! what the next hop is made of; the body of the first request is gone by then.

use vstd::prelude::*;

use crate::error::{ErrorView, ProxyError};
use crate::header::{
    ascii_text, canonical_name, clone_headers, first, get_value, header_contents, valid_name,
    value_to_str, visible,
};
use crate::message::{Method, MethodView, RequestHead, ResponseHead};
use crate::proxy::headers::{all_canonical, remove_each, views, without};
use crate::text::{concat, concat3, eq_ignore_ascii_case, lower, same_text};
use crate::uri::{
    join_url, named_scheme, scheme_named, uri_parse, url_join, url_parse, Uri, UriView, Url,
};

verus! {

/// The headers that never survive a hop to another host: those that may carry
/// credentials, and `host`, which is made anew from the URI.
pub open spec fn sensitive_headers() -> Seq<&'static str> {
    seq![
        "authorization",
        "cookie",
        "proxy-authorization",
        "authentication-info",
        "www-authenticate",
        "host",
    ]
}

/// What follow-up requests are made of.
#[derive(Debug)]
pub struct RedirectState {
    /// The method of the last request.
    pub method: Method,
    /// The headers that every hop inherits until they are stripped.
    pub headers: http::HeaderMap,
    /// The URI of the last request.
    pub uri: Uri,
}

/// The mathematical content of a [`RedirectState`], and of a request without
/// its body.
pub struct HopView {
    /// The method.
    pub method: MethodView,
    /// The URI.
    pub uri: UriView,
    /// The headers.
    pub headers: Map<Seq<char>, Seq<Seq<u8>>>,
}

impl View for RedirectState {
    type V = HopView;

    open spec fn view(&self) -> HopView {
        HopView {
            method: self.method@,
            uri: self.uri@,
            headers: header_contents(self.headers),
        }
    }
}

/// The content of a request head.
pub open spec fn head_view(head: RequestHead) -> HopView {
    HopView { method: head.method@, uri: head.uri@, headers: header_contents(head.headers) }
}

impl RedirectState {
    /// The state after the first request.
    pub fn from_initial(method: Method, uri: Uri, headers: http::HeaderMap) -> (r: RedirectState)
        ensures
            r.method == method,
            r.uri == uri,
            r.headers == headers,
    {
        RedirectState { method, headers, uri }
    }
}

/// Whether a response with this status is a redirect that is followed.
pub open spec fn follows(status: u16) -> bool {
    status == 301 || status == 302 || status == 303 || status == 307 || status == 308
}

/// Whether a response with this status is a redirect that is followed.
pub fn is_redirect(status: u16) -> (r: bool)
    ensures
        r == follows(status),
{
    status == 301 || status == 302 || status == 303 || status == 307 || status == 308
}

/// Whether requests with this method carry a body.
pub open spec fn bears_body(method: MethodView) -> bool {
    method == MethodView::Post || method == MethodView::Put || method == MethodView::Patch
}

/// The method of the next hop, and whether the body is dropped: 301, 302 and
/// 303 turn a request with a body into a `GET`.
pub open spec fn transition(method: MethodView, status: u16) -> (MethodView, bool) {
    if (status == 301 || status == 302 || status == 303) && bears_body(method) {
        (MethodView::Get, true)
    } else {
        (method, false)
    }
}

/// Whether two URIs have different authorities, or one has none.
pub open spec fn crosses_hosts(a: UriView, b: UriView) -> bool {
    match (a.authority, b.authority) {
        (Some(x), Some(y)) => lower(x) != lower(y),
        _ => true,
    }
}

/// Whether a hop leaves `https` for `http`.
pub open spec fn downgrades(from: UriView, to: UriView) -> bool {
    from.scheme == Some("https"@) && to.scheme == Some("http"@)
}

/// The verdict on the scheme of a redirect target.
pub open spec fn scheme_verdict(uri: UriView) -> Result<(), ErrorView> {
    match uri.scheme {
        Some(scheme) => if scheme == "http"@ || scheme == "https"@ {
            Ok(())
        } else {
            Err(ErrorView::InvalidUrl("redirect to unsupported scheme `"@ + scheme + "`"@))
        },
        None => Err(ErrorView::InvalidUrl("redirect Location lacks a scheme"@)),
    }
}

/// The URI that a `Location` leads to from `base`: one that names a scheme in
/// front is read as it stands, any other is resolved against `base`.
pub open spec fn located(base: UriView, location: Seq<char>) -> Result<UriView, ErrorView> {
    if named_scheme(location) is Some {
        match uri_parse(location) {
            Ok(uri) => Ok(uri),
            Err(report) => Err(ErrorView::InvalidUrl("invalid redirect target: "@ + report)),
        }
    } else {
        match url_parse(base.text) {
            Err(report) => Err(ErrorView::InvalidUrl("uri-to-url failed: "@ + report)),
            Ok(_) => match url_join(base.text, location) {
                Err(report) => Err(ErrorView::InvalidUrl("cannot resolve redirect: "@ + report)),
                Ok(text) => match uri_parse(text) {
                    Ok(uri) => Ok(uri),
                    Err(report) => Err(
                        ErrorView::InvalidUrl("invalid resolved redirect: "@ + report),
                    ),
                },
            },
        }
    }
}

/// What comes of a redirect response.
pub enum HopOutcome {
    /// The redirect is refused.
    Fail(ErrorView),
    /// The response is handed to the client as it is, for this reason.
    Stop(Seq<char>),
    /// This request is sent next.
    Continue(HopView),
}

/// What comes of a redirect with `status` from `now` to `to`.
pub open spec fn hop_to(
    now: HopView,
    to: UriView,
    status: u16,
    allow_downgrade: bool,
) -> HopOutcome {
    if scheme_verdict(to) is Err {
        HopOutcome::Fail(scheme_verdict(to)->Err_0)
    } else if !allow_downgrade && downgrades(now.uri, to) {
        HopOutcome::Fail(ErrorView::InvalidUrl("https → http redirect downgrade rejected"@))
    } else {
        let (method, drops_body) = transition(now.method, status);
        if !drops_body && bears_body(method) {
            HopOutcome::Stop("307/308 with body-bearing method cannot be safely replayed"@)
        } else {
            HopOutcome::Continue(
                HopView {
                    method,
                    uri: to,
                    headers: if crosses_hosts(now.uri, to) {
                        without(now.headers, views(sensitive_headers()))
                    } else {
                        now.headers
                    },
                },
            )
        }
    }
}

/// What comes of a redirect response with `status` and headers `response`.
pub open spec fn next_hop(
    now: HopView,
    status: u16,
    response: Map<Seq<char>, Seq<Seq<u8>>>,
    allow_downgrade: bool,
) -> HopOutcome {
    match first(response, "location"@) {
        None => HopOutcome::Stop("no Location header"@),
        Some(value) => if !visible(value) {
            HopOutcome::Stop("non-utf8 Location header"@)
        } else {
            match located(now.uri, ascii_text(value)) {
                Err(err) => HopOutcome::Fail(err),
                Ok(to) => hop_to(now, to, status, allow_downgrade),
            }
        },
    }
}

/// What is decided about the next hop.
#[derive(Debug)]
pub enum NextHop {
    /// Send this request next.
    Continue(Box<RequestHead>),
    /// Hand the redirect response to the client, for this reason.
    Stop(&'static str),
}

/// The content of a decision.
pub open spec fn hop_outcome(r: Result<NextHop, ProxyError>) -> HopOutcome {
    match r {
        Err(err) => HopOutcome::Fail(err@),
        Ok(NextHop::Stop(reason)) => HopOutcome::Stop(reason@),
        Ok(NextHop::Continue(head)) => HopOutcome::Continue(head_view(*head)),
    }
}

/// The state after a decision: that of the request sent next, or as it was.
pub open spec fn state_after(before: HopView, outcome: HopOutcome) -> HopView {
    match outcome {
        HopOutcome::Continue(next) => next,
        _ => before,
    }
}

/// Whether requests with this method carry a body.
pub fn body_bearing(method: &Method) -> (r: bool)
    ensures
        r == bears_body(method@),
{
    match method {
        Method::Post | Method::Put | Method::Patch => true,
        _ => false,
    }
}

/// The method of the next hop, and whether the body is dropped.
pub fn classify_transition(method: &Method, status: u16) -> (r: (Method, bool))
    ensures
        (r.0@, r.1) == transition(method@, status),
{
    if status == 301 || status == 302 || status == 303 {
        if body_bearing(method) {
            (Method::Get, true)
        } else {
            (method.clone(), false)
        }
    } else {
        (method.clone(), false)
    }
}

/// Whether two URIs have different authorities, or one has none.
pub fn authority_differs(a: &Uri, b: &Uri) -> (r: bool)
    ensures
        r == crosses_hosts(a@, b@),
{
    match (&a.authority, &b.authority) {
        (Some(x), Some(y)) => !eq_ignore_ascii_case(x.as_str(), y.as_str()),
        _ => true,
    }
}

/// Whether an optional text is there and equal to `want`.
fn is_text(text: &Option<String>, want: &str) -> (r: bool)
    ensures
        r == (crate::uri::opt_text(*text) == Some(want@)),
{
    match text {
        Some(t) => same_text(t.as_str(), want),
        None => false,
    }
}

/// Whether a hop leaves `https` for `http`.
pub fn is_https_to_http_downgrade(from: &Uri, to: &Uri) -> (r: bool)
    ensures
        r == downgrades(from@, to@),
{
    is_text(&from.scheme, "https") && is_text(&to.scheme, "http")
}

/// Accepts only web schemes as redirect targets.
pub fn require_safe_scheme(uri: &Uri) -> (r: Result<(), ProxyError>)
    ensures
        match r {
            Ok(()) => scheme_verdict(uri@) is Ok,
            Err(err) => scheme_verdict(uri@) == Err::<(), ErrorView>(err@),
        },
{
    match &uri.scheme {
        Some(scheme) => if same_text(scheme.as_str(), "http") || same_text(
            scheme.as_str(),
            "https",
        ) {
            Ok(())
        } else {
            Err(
                ProxyError::InvalidUrl(
                    concat3("redirect to unsupported scheme `", scheme.as_str(), "`"),
                ),
            )
        },
        None => Err(ProxyError::InvalidUrl("redirect Location lacks a scheme".to_owned())),
    }
}

/// The URI that a `Location` leads to from `base`.
pub fn resolve_location(base: &Uri, location: &str) -> (r: Result<Uri, ProxyError>)
    ensures
        match r {
            Ok(uri) => located(base@, location@) == Ok::<UriView, ErrorView>(uri@),
            Err(err) => located(base@, location@) == Err::<UriView, ErrorView>(err@),
        },
{
    if scheme_named(location).is_some() {
        return match Uri::parse(location) {
            Ok(uri) => Ok(uri),
            Err(report) => Err(
                ProxyError::InvalidUrl(concat("invalid redirect target: ", report.as_str())),
            ),
        };
    }
    if let Err(report) = Url::parse(base.text.as_str()) {
        return Err(ProxyError::InvalidUrl(concat("uri-to-url failed: ", report.as_str())));
    }
    match join_url(base.text.as_str(), location) {
        Ok(text) => match Uri::parse(text.as_str()) {
            Ok(uri) => Ok(uri),
            Err(report) => Err(
                ProxyError::InvalidUrl(concat("invalid resolved redirect: ", report.as_str())),
            ),
        },
        Err(report) => Err(
            ProxyError::InvalidUrl(concat("cannot resolve redirect: ", report.as_str())),
        ),
    }
}

/// The sensitive names are header names in lower case.
proof fn lemma_sensitive_names()
    ensures
        all_canonical(views(sensitive_headers())),
        canonical_name("location"@),
{
    reveal_strlit("authorization");
    reveal_strlit("cookie");
    reveal_strlit("proxy-authorization");
    reveal_strlit("authentication-info");
    reveal_strlit("www-authenticate");
    reveal_strlit("host");
    reveal_strlit("location");
    assert forall|i: int| 0 <= i < sensitive_headers().len() implies canonical_name(
        #[trigger] views(sensitive_headers())[i],
    ) by {
        let s = sensitive_headers()[i]@;
        assert(valid_name(s));
        assert(lower(s) =~= s);
    }
    assert(lower("location"@) =~= "location"@);
}

/// Decides about a redirect with `status` to `next_uri`, and moves the state
/// on where the next request is sent.
pub fn continue_to(
    state: &mut RedirectState,
    next_uri: Uri,
    status: u16,
    allow_https_to_http_downgrade: bool,
) -> (r: Result<NextHop, ProxyError>)
    ensures
        hop_outcome(r) == hop_to(
            old(state)@,
            next_uri@,
            status,
            allow_https_to_http_downgrade,
        ),
        final(state)@ == state_after(old(state)@, hop_outcome(r)),
{
    if let Err(err) = require_safe_scheme(&next_uri) {
        return Err(err);
    }
    if !allow_https_to_http_downgrade && is_https_to_http_downgrade(&state.uri, &next_uri) {
        return Err(ProxyError::InvalidUrl("https → http redirect downgrade rejected".to_owned()));
    }
    let cross_host = authority_differs(&state.uri, &next_uri);
    let (next_method, drop_body) = classify_transition(&state.method, status);
    if !drop_body && body_bearing(&next_method) {
        return Ok(
            NextHop::Stop("307/308 with body-bearing method cannot be safely replayed"),
        );
    }
    if cross_host {
        let names: Vec<&'static str> = vec![
            "authorization",
            "cookie",
            "proxy-authorization",
            "authentication-info",
            "www-authenticate",
            "host",
        ];
        proof {
            lemma_sensitive_names();
            assert(names@ =~= sensitive_headers());
        }
        remove_each(&mut state.headers, &names);
    }
    state.method = next_method.clone();
    state.uri = next_uri.clone();
    let headers = clone_headers(&state.headers);
    Ok(NextHop::Continue(Box::new(RequestHead { method: next_method, uri: next_uri, headers })))
}

/// Decides about a redirect response, and moves the state on where the next
/// request is sent. A `Location` that is malformed, that leaves the web
/// schemes, or that leaves `https` without leave to do so, is an error.
pub fn prepare_next(
    state: &mut RedirectState,
    response: &ResponseHead,
    allow_https_to_http_downgrade: bool,
) -> (r: Result<NextHop, ProxyError>)
    ensures
        hop_outcome(r) == next_hop(
            old(state)@,
            response.status,
            header_contents(response.headers),
            allow_https_to_http_downgrade,
        ),
        final(state)@ == state_after(old(state)@, hop_outcome(r)),
{
    proof {
        lemma_sensitive_names();
    }
    let value = match get_value(&response.headers, "location") {
        Some(value) => value,
        None => {
            return Ok(NextHop::Stop("no Location header"));
        },
    };
    let location = match value_to_str(&value) {
        Some(location) => location,
        None => {
            return Ok(NextHop::Stop("non-utf8 Location header"));
        },
    };
    match resolve_location(&state.uri, location.as_str()) {
        Ok(next_uri) => continue_to(
            state,
            next_uri,
            response.status,
            allow_https_to_http_downgrade,
        ),
        Err(err) => Err(err),
    }
}

/// On the way to another host no header that may carry credentials survives.
pub proof fn law_no_secrets_across_hosts(
    now: HopView,
    to: UriView,
    status: u16,
    allow_downgrade: bool,
    name: Seq<char>,
)
    requires
        crosses_hosts(now.uri, to),
        views(sensitive_headers()).contains(name),
    ensures
        hop_to(now, to, status, allow_downgrade) matches HopOutcome::Continue(next)
            ==> !next.headers.dom().contains(name),
{
}

/// On the way to the same host, and for every name that is not sensitive,
/// headers are inherited as they are.
pub proof fn law_headers_inherited(
    now: HopView,
    to: UriView,
    status: u16,
    allow_downgrade: bool,
    name: Seq<char>,
)
    requires
        !crosses_hosts(now.uri, to) || !views(sensitive_headers()).contains(name),
    ensures
        hop_to(now, to, status, allow_downgrade) matches HopOutcome::Continue(next) ==> (
        next.headers.dom().contains(name) <==> now.headers.dom().contains(name)) && (
        now.headers.dom().contains(name) ==> next.headers[name] == now.headers[name]),
{
}

/// Whatever the response says, the next request has a web scheme, leaves
/// `https` only where that is allowed, and needs no body.
pub proof fn law_next_request_is_safe(
    now: HopView,
    status: u16,
    response: Map<Seq<char>, Seq<Seq<u8>>>,
    allow_downgrade: bool,
)
    ensures
        next_hop(now, status, response, allow_downgrade) matches HopOutcome::Continue(next) ==> {
            &&& next.uri.scheme == Some("http"@) || next.uri.scheme == Some("https"@)
            &&& downgrades(now.uri, next.uri) ==> allow_downgrade
            &&& !bears_body(next.method)
        },
{
}

} // verus!
