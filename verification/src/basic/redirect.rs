//! Redirects of the smaller engine. The target may have any scheme, and on the
//! way to another host `authorization`, `cookie` and `host` are dropped.

use vstd::prelude::*;

use crate::error::ProxyError;
use crate::header::{
    ascii_text, canonical_name, clone_headers, first, get_value, header_contents, valid_name,
    value_to_str, visible,
};
use crate::message::{RequestHead, ResponseHead};
use crate::proxy::headers::{all_canonical, remove_each, views, without};
use crate::proxy::redirect::{
    authority_differs, bears_body, body_bearing, classify_transition, crosses_hosts, head_view,
    located, resolve_location, state_after, transition, HopOutcome, HopView, RedirectState,
};
use crate::text::lower;
use crate::uri::{Uri, UriView};

verus! {

/// The headers that do not survive a hop to another host.
pub open spec fn sensitive_headers() -> Seq<&'static str> {
    seq!["authorization", "cookie", "host"]
}

/// What comes of a redirect with `status` from `now` to `to`.
pub open spec fn hop_to(now: HopView, to: UriView, status: u16) -> HopOutcome {
    let (method, drops_body) = transition(now.method, status);
    if !drops_body && bears_body(method) {
        HopOutcome::Stop("the body cannot be replayed"@)
    } else {
        HopOutcome::Continue(
            HopView {
                method,
                uri: to,
                headers: if crosses_hosts(now.uri, to) {
                    without(now.headers, views(sensitive_headers()))
                } else {
                    now.headers
                },
            },
        )
    }
}

/// What comes of a redirect response with `status` and headers `response`.
pub open spec fn next_hop(
    now: HopView,
    status: u16,
    response: Map<Seq<char>, Seq<Seq<u8>>>,
) -> HopOutcome {
    match first(response, "location"@) {
        None => HopOutcome::Stop("no usable location"@),
        Some(value) => if !visible(value) {
            HopOutcome::Stop("no usable location"@)
        } else {
            match located(now.uri, ascii_text(value)) {
                Err(err) => HopOutcome::Fail(err),
                Ok(to) => hop_to(now, to, status),
            }
        },
    }
}

/// Whether a result is the one for this outcome.
pub open spec fn answers(r: Result<Option<RequestHead>, ProxyError>, outcome: HopOutcome) -> bool {
    match outcome {
        HopOutcome::Fail(err) => r matches Err(e) && e@ == err,
        HopOutcome::Stop(_) => r matches Ok(None),
        HopOutcome::Continue(next) => r matches Ok(Some(head)) && head_view(head) == next,
    }
}

/// The sensitive names are header names in lower case.
proof fn lemma_sensitive_names()
    ensures
        all_canonical(views(sensitive_headers())),
        canonical_name("location"@),
{
    reveal_strlit("authorization");
    reveal_strlit("cookie");
    reveal_strlit("host");
    reveal_strlit("location");
    assert forall|i: int| 0 <= i < sensitive_headers().len() implies canonical_name(
        #[trigger] views(sensitive_headers())[i],
    ) by {
        let s = sensitive_headers()[i]@;
        assert(valid_name(s));
        assert(lower(s) =~= s);
    }
    assert(lower("location"@) =~= "location"@);
}

/// Decides about a redirect with `status` to `next_uri`, and moves the state
/// on where the next request is sent.
pub fn continue_to(state: &mut RedirectState, next_uri: Uri, status: u16) -> (r: Option<RequestHead>)
    ensures
        answers(Ok(r), hop_to(old(state)@, next_uri@, status)),
        final(state)@ == state_after(old(state)@, hop_to(old(state)@, next_uri@, status)),
{
    let cross_host = authority_differs(&state.uri, &next_uri);
    let (next_method, drop_body) = classify_transition(&state.method, status);
    if !drop_body && body_bearing(&next_method) {
        return None;
    }
    if cross_host {
        let names: Vec<&'static str> = vec!["authorization", "cookie", "host"];
        proof {
            lemma_sensitive_names();
            assert(names@ =~= sensitive_headers());
        }
        remove_each(&mut state.headers, &names);
    }
    state.method = next_method.clone();
    state.uri = next_uri.clone();
    let headers = clone_headers(&state.headers);
    Some(RequestHead { method: next_method, uri: next_uri, headers })
}

/// Decides about a redirect response. `Ok(None)` comes where the response has
/// no usable `Location`, or where the next request would need the body again;
/// a malformed `Location` is an error.
pub fn prepare_next(state: &mut RedirectState, response: &ResponseHead) -> (r: Result<
    Option<RequestHead>,
    ProxyError,
>)
    ensures
        answers(
            r,
            next_hop(old(state)@, response.status, header_contents(response.headers)),
        ),
        final(state)@ == state_after(
            old(state)@,
            next_hop(old(state)@, response.status, header_contents(response.headers)),
        ),
{
    proof {
        lemma_sensitive_names();
    }
    let value = match get_value(&response.headers, "location") {
        Some(value) => value,
        None => {
            return Ok(None);
        },
    };
    let location = match value_to_str(&value) {
        Some(location) => location,
        None => {
            return Ok(None);
        },
    };
    match resolve_location(&state.uri, location.as_str()) {
        Ok(next_uri) => Ok(continue_to(state, next_uri, response.status)),
        Err(err) => Err(err),
    }
}

/// On the way to another host, no secret of the smaller engine's list survives.
pub proof fn law_no_secrets_across_hosts(now: HopView, to: UriView, status: u16, name: Seq<char>)
    requires
        crosses_hosts(now.uri, to),
        views(sensitive_headers()).contains(name),
    ensures
        hop_to(now, to, status) matches HopOutcome::Continue(next) ==> !next.headers.dom().contains(
            name,
        ),
{
}

} // verus!
