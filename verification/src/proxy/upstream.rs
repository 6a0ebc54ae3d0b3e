//! The decisions of the upstream client.
//!
//! [`Upstream`] is made once and shared by all requests. For each request it
//! hands out a [`RedirectFlow`], which decides after every response whether the
//! request is over or where it goes next.

use vstd::prelude::*;

use crate::error::{ErrorView, ProxyError};
use crate::header::{clone_headers, header_contents};
use crate::message::{RequestHead, ResponseHead};
use crate::net::{ip_literal, IpAddr};
use crate::policy::target::{TargetPolicy, TargetPolicyView};
use crate::proxy::redirect::{
    follows, head_view, is_redirect, next_hop, prepare_next, HopOutcome, HopView, NextHop,
    RedirectState,
};
use crate::proxy::ssrf::{denotes, unbracketed, GuardView, SsrfGuard};
use crate::time::Duration;
use crate::uri::{Uri, UriView};

verus! {

/// Tuning of the upstream client.
#[derive(Clone, Debug)]
pub struct UpstreamConfig {
    /// Idle connections kept for each host.
    pub pool_max_idle_per_host: usize,
    /// How long an idle connection is kept.
    pub pool_idle_timeout: Duration,
    /// How long connecting may take.
    pub connect_timeout: Duration,
    /// How many redirects are followed.
    pub max_redirects: u8,
    /// `User-Agent` of requests that have none.
    pub user_agent: String,
}

/// What the upstream client decides by.
#[derive(Debug)]
pub struct Upstream {
    config: UpstreamConfig,
    guard: SsrfGuard,
    policy: TargetPolicy,
    allow_https_to_http_downgrade: bool,
}

impl Upstream {
    /// The tuning.
    pub closed spec fn spec_config(self) -> UpstreamConfig {
        self.config
    }

    /// The guard of the addresses that are connected to.
    pub closed spec fn spec_guard(self) -> GuardView {
        self.guard@
    }

    /// The policy of every redirect hop.
    pub closed spec fn spec_policy(self) -> TargetPolicyView {
        self.policy@
    }

    /// Whether a redirect may leave `https` for `http`.
    pub closed spec fn spec_allow_downgrade(self) -> bool {
        self.allow_https_to_http_downgrade
    }

    /// A client with this tuning, whose redirects go by `policy` and by `guard`.
    /// Resolvers and handlers ask the guard for the addresses of names and for
    /// the literal of the first request.
    pub fn new(
        config: UpstreamConfig,
        guard: SsrfGuard,
        policy: TargetPolicy,
        allow_https_to_http_downgrade: bool,
    ) -> (r: Upstream)
        ensures
            r.spec_config() == config,
            r.spec_guard() == guard@,
            r.spec_policy() == policy@,
            r.spec_allow_downgrade() == allow_https_to_http_downgrade,
    {
        Upstream { config, guard, policy, allow_https_to_http_downgrade }
    }

    /// The guard of the addresses that are connected to. A handler asks it for
    /// the literal of a first request, a resolver for the addresses of a name.
    pub fn guard(&self) -> (r: &SsrfGuard)
        ensures
            r@ == self.spec_guard(),
    {
        &self.guard
    }

    /// The `User-Agent` of requests that have none.
    pub fn user_agent(&self) -> (r: &str)
        ensures
            r@ == self.spec_config().user_agent@,
    {
        self.config.user_agent.as_str()
    }

    /// Begins a request. What follow-up requests are made of is kept, since
    /// the request itself is consumed when it is sent.
    pub fn begin(&self, request: &RequestHead) -> (r: RedirectFlow)
        ensures
            r@ == (FlowView {
                now: head_view(*request),
                hops: 0,
                max_redirects: self.spec_config().max_redirects,
                allow_downgrade: self.spec_allow_downgrade(),
                policy: self.spec_policy(),
                guard: self.spec_guard(),
            }),
    {
        RedirectFlow {
            state: split_initial(request),
            hops: 0,
            max_redirects: self.config.max_redirects,
            allow_https_to_http_downgrade: self.allow_https_to_http_downgrade,
            policy: self.policy.clone(),
            guard: self.guard.clone(),
        }
    }
}

/// What follow-up requests to `request` are made of.
fn split_initial(request: &RequestHead) -> (r: RedirectState)
    ensures
        r@ == head_view(*request),
{
    RedirectState::from_initial(
        request.method.clone(),
        request.uri.clone(),
        clone_headers(&request.headers),
    )
}

/// A request on its way, from one redirect to the next.
#[derive(Debug)]
pub struct RedirectFlow {
    state: RedirectState,
    hops: u8,
    max_redirects: u8,
    allow_https_to_http_downgrade: bool,
    policy: TargetPolicy,
    guard: SsrfGuard,
}

/// The mathematical content of a [`RedirectFlow`].
pub struct FlowView {
    /// The last request.
    pub now: HopView,
    /// How many redirects have been followed.
    pub hops: u8,
    /// How many redirects are followed at most.
    pub max_redirects: u8,
    /// Whether a redirect may leave `https` for `http`.
    pub allow_downgrade: bool,
    /// The policy of every hop.
    pub policy: TargetPolicyView,
    /// The guard of every hop.
    pub guard: GuardView,
}

impl View for RedirectFlow {
    type V = FlowView;

    closed spec fn view(&self) -> FlowView {
        FlowView {
            now: self.state@,
            hops: self.hops,
            max_redirects: self.max_redirects,
            allow_downgrade: self.allow_https_to_http_downgrade,
            policy: self.policy@,
            guard: self.guard@,
        }
    }
}

/// What comes of a response.
pub enum FlowOutcome {
    /// The request fails.
    Fail(ErrorView),
    /// The response is the answer.
    Done,
    /// This request is sent next.
    Send(HopView),
}

impl FlowView {
    /// The verdict on the target of a hop: the policy must admit it, and where
    /// its host is an address literal, the guard too.
    pub open spec fn hop_verdict(self, to: UriView) -> Result<(), ErrorView> {
        match self.policy.uri_verdict(to) {
            Err(err) => Err(err),
            Ok(()) => match to.host {
                Some(host) => self.guard.host_checked(host),
                None => Ok(()),
            },
        }
    }

    /// What comes of a response with `status` and headers `response`: one that
    /// is no redirect, or that leads nowhere, is the answer; any other costs
    /// one hop of the budget, and its target must be admitted.
    pub open spec fn on_response(
        self,
        status: u16,
        response: Map<Seq<char>, Seq<Seq<u8>>>,
    ) -> FlowOutcome {
        if !follows(status) {
            FlowOutcome::Done
        } else if self.hops >= self.max_redirects {
            FlowOutcome::Fail(ErrorView::TooManyRedirects(self.max_redirects))
        } else {
            match next_hop(self.now, status, response, self.allow_downgrade) {
                HopOutcome::Fail(err) => FlowOutcome::Fail(err),
                HopOutcome::Stop(_) => FlowOutcome::Done,
                HopOutcome::Continue(next) => match self.hop_verdict(next.uri) {
                    Ok(()) => FlowOutcome::Send(next),
                    Err(err) => FlowOutcome::Fail(err),
                },
            }
        }
    }
}

impl FlowView {
    /// The flow after a response: moved on to the next request, and counted,
    /// where that is sent; moved on but not counted where its target is not
    /// admitted; as it was otherwise.
    pub open spec fn after_response(
        self,
        status: u16,
        response: Map<Seq<char>, Seq<Seq<u8>>>,
    ) -> FlowView {
        if !follows(status) || self.hops >= self.max_redirects {
            self
        } else {
            match next_hop(self.now, status, response, self.allow_downgrade) {
                HopOutcome::Continue(next) => match self.hop_verdict(next.uri) {
                    Ok(()) => FlowView { now: next, hops: (self.hops + 1) as u8, ..self },
                    Err(_) => FlowView { now: next, ..self },
                },
                _ => self,
            }
        }
    }
}

/// The content of an outcome.
pub open spec fn flow_outcome(r: Result<Option<RequestHead>, ProxyError>) -> FlowOutcome {
    match r {
        Err(err) => FlowOutcome::Fail(err@),
        Ok(None) => FlowOutcome::Done,
        Ok(Some(head)) => FlowOutcome::Send(head_view(head)),
    }
}

/// Whether the next request, where there is one, goes to no address literal
/// that `guard` refuses.
pub open spec fn leads_to_admitted(
    r: Result<Option<RequestHead>, ProxyError>,
    guard: GuardView,
) -> bool {
    r matches Ok(Some(head)) ==> (head.uri@.host matches Some(host) ==> forall|ip: IpAddr|
        #[trigger] denotes(host, ip) ==> guard.admits(ip))
}

impl RedirectFlow {
    /// Holds the target of a hop against the policy and the guard.
    fn check_hop(&self, to: &Uri) -> (r: Result<(), ProxyError>)
        ensures
            match r {
                Ok(()) => self@.hop_verdict(to@) == Ok::<(), ErrorView>(()),
                Err(err) => self@.hop_verdict(to@) == Err::<(), ErrorView>(err@),
            },
            r is Ok ==> (to@.host matches Some(host) ==> forall|ip: IpAddr| #[trigger]
                denotes(host, ip) ==> self@.guard.admits(ip)),
    {
        if let Err(err) = self.policy.check_uri(to) {
            return Err(err);
        }
        match &to.host {
            Some(host) => self.guard.check_host(host.as_str()),
            None => Ok(()),
        }
    }

    /// Decides after a response: `Ok(None)` makes it the answer, `Ok(Some(..))`
    /// is the request to send next, and an error ends the request.
    pub fn on_response(&mut self, response: &ResponseHead) -> (r: Result<
        Option<RequestHead>,
        ProxyError,
    >)
        ensures
            flow_outcome(r) == old(self)@.on_response(
                response.status,
                header_contents(response.headers),
            ),
            final(self)@ == old(self)@.after_response(
                response.status,
                header_contents(response.headers),
            ),
            leads_to_admitted(r, old(self)@.guard),
    {
        if !is_redirect(response.status) {
            return Ok(None);
        }
        if self.hops >= self.max_redirects {
            return Err(ProxyError::TooManyRedirects(self.max_redirects));
        }
        match prepare_next(&mut self.state, response, self.allow_https_to_http_downgrade) {
            Err(err) => Err(err),
            Ok(NextHop::Stop(_)) => Ok(None),
            Ok(NextHop::Continue(head)) => {
                if let Err(err) = self.check_hop(&head.uri) {
                    return Err(err);
                }
                self.hops = self.hops + 1;
                Ok(Some(*head))
            },
        }
    }
}

/// The flow after responses, as long as each leads on; `None` where one ended
/// the request.
pub open spec fn flow_after(
    flow: FlowView,
    responses: Seq<(u16, Map<Seq<char>, Seq<Seq<u8>>>)>,
) -> Option<FlowView>
    decreases responses.len(),
{
    if responses.len() == 0 {
        Some(flow)
    } else {
        match flow_after(flow, responses.drop_last()) {
            None => None,
            Some(before) => match before.on_response(responses.last().0, responses.last().1) {
                FlowOutcome::Send(_) => Some(
                    before.after_response(responses.last().0, responses.last().1),
                ),
                _ => None,
            },
        }
    }
}

/// A request never follows more redirects than its budget: after `n` of them
/// the count is `n`, and `n` is within the budget.
pub proof fn law_redirect_budget(
    flow: FlowView,
    responses: Seq<(u16, Map<Seq<char>, Seq<Seq<u8>>>)>,
)
    requires
        flow.hops == 0,
    ensures
        flow_after(flow, responses) matches Some(after) ==> {
            &&& after.hops == responses.len()
            &&& after.max_redirects == flow.max_redirects
            &&& responses.len() <= flow.max_redirects
        },
    decreases responses.len(),
{
    if responses.len() > 0 {
        law_redirect_budget(flow, responses.drop_last());
    }
}

/// Redirects lead only where the policy lets a request go, on every hop.
pub proof fn law_every_hop_admitted(
    flow: FlowView,
    status: u16,
    response: Map<Seq<char>, Seq<Seq<u8>>>,
)
    ensures
        flow.on_response(status, response) matches FlowOutcome::Send(next)
            ==> flow.policy.uri_verdict(next.uri) is Ok,
{
}

/// No redirect leads to an address literal that the guard refuses, whatever
/// the response says.
pub proof fn law_no_hop_to_refused_literal(
    flow: FlowView,
    status: u16,
    response: Map<Seq<char>, Seq<Seq<u8>>>,
)
    ensures
        flow.on_response(status, response) matches FlowOutcome::Send(next) ==> (
        next.uri.host matches Some(host) ==> (ip_literal(unbracketed(host)) matches Some(ip)
            ==> flow.guard.admits(ip))),
{
}

} // verus!
