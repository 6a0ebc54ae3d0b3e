//! Circuit breaker of each upstream host.
//!
//! Time is given by the caller, in nanoseconds of a clock that never runs
//! backwards.

use vstd::prelude::*;

use crate::config::circuit::CircuitBreakerConfig;
use crate::error::{ErrorView, ProxyError};

verus! {

/// The map of the `dashmap` crate.
#[verifier::external_type_specification]
#[verifier::external_body]
#[verifier::reject_recursive_types(K)]
#[verifier::reject_recursive_types(V)]
#[verifier::reject_recursive_types(S)]
pub struct ExDashMap<K, V, S>(dashmap::DashMap<K, V, S>);

/// The hasher factory of the `foldhash` crate.
#[verifier::external_type_specification]
#[verifier::external_body]
pub struct ExRandomState(foldhash::fast::RandomState);

/// Outcome of a check before a request is sent upstream.
#[derive(Clone, Copy, Debug, PartialEq, Eq, Structural)]
pub enum CircuitDecision {
    /// Go on with the request.
    Closed,
    /// Go on with the request as one of a few probes.
    HalfOpenProbe,
}

/// The state of a circuit.
#[derive(Clone, Copy, Debug, PartialEq, Eq, Structural)]
pub enum State {
    /// Requests pass.
    Closed,
    /// Requests are rejected until this time.
    Open {
        /// When probing begins.
        until: u128,
    },
    /// A limited number of probes passes.
    HalfOpen {
        /// How many have passed.
        probes: u32,
    },
}

/// The circuit of one host.
#[derive(Debug)]
pub struct HostCircuit {
    /// The state.
    pub state: State,
    /// When failures happened, oldest first.
    pub failures: Vec<u64>,
}

/// The mathematical content of a [`HostCircuit`].
pub struct CircuitView {
    /// The state.
    pub state: State,
    /// When failures happened, oldest first.
    pub failures: Seq<u64>,
}

impl View for HostCircuit {
    type V = CircuitView;

    open spec fn view(&self) -> CircuitView {
        CircuitView { state: self.state, failures: self.failures@ }
    }
}

/// The circuit of a host without failures.
pub open spec fn fresh() -> CircuitView {
    CircuitView { state: State::Closed, failures: Seq::empty() }
}

/// What a check at `now` makes of a circuit, and its decision.
pub open spec fn on_check(circuit: CircuitView, now: u64, half_open_max: u32) -> (
    CircuitView,
    Option<CircuitDecision>,
) {
    match circuit.state {
        State::Closed => (circuit, Some(CircuitDecision::Closed)),
        State::Open { until } => if now >= until {
            (
                CircuitView { state: State::HalfOpen { probes: 1 }, ..circuit },
                Some(CircuitDecision::HalfOpenProbe),
            )
        } else {
            (circuit, None)
        },
        State::HalfOpen { probes } => if probes < half_open_max {
            (
                CircuitView { state: State::HalfOpen { probes: (probes + 1) as u32 }, ..circuit },
                Some(CircuitDecision::HalfOpenProbe),
            )
        } else {
            (circuit, None)
        },
    }
}

/// Whether a failure at `then` still counts at `now`.
pub open spec fn still_counts(then: u64, now: u64, window: nat) -> bool {
    now - then <= window
}

/// The failures that still count at `now`.
pub open spec fn recent(failures: Seq<u64>, now: u64, window: nat) -> Seq<u64>
    decreases failures.len(),
{
    if failures.len() == 0 {
        Seq::empty()
    } else if still_counts(failures.last(), now, window) {
        recent(failures.drop_last(), now, window).push(failures.last())
    } else {
        recent(failures.drop_last(), now, window)
    }
}

/// What a failure at `now` makes of a circuit, and whether it opens it. A
/// failed probe opens it at once; otherwise it takes `threshold` failures
/// within the window.
pub open spec fn on_failure(
    circuit: CircuitView,
    now: u64,
    window: nat,
    threshold: u32,
    open_nanos: nat,
) -> (CircuitView, bool) {
    let failures = recent(circuit.failures, now, window).push(now);
    if circuit.state is HalfOpen || failures.len() >= threshold {
        (
            CircuitView {
                state: State::Open { until: (now + open_nanos) as u128 },
                failures: Seq::empty(),
            },
            true,
        )
    } else {
        (CircuitView { state: circuit.state, failures }, false)
    }
}

impl HostCircuit {
    /// The circuit of a host without failures.
    pub fn new() -> (r: HostCircuit)
        ensures
            r@ == fresh(),
    {
        HostCircuit { state: State::Closed, failures: Vec::new() }
    }
}

/// Checks a circuit at `now`.
pub fn transition_on_check(entry: &mut HostCircuit, now: u64, half_open_max: u32) -> (r: Option<
    CircuitDecision,
>)
    ensures
        (final(entry)@, r) == on_check(old(entry)@, now, half_open_max),
{
    match entry.state {
        State::Closed => Some(CircuitDecision::Closed),
        State::Open { until } => {
            if now as u128 >= until {
                entry.state = State::HalfOpen { probes: 1 };
                Some(CircuitDecision::HalfOpenProbe)
            } else {
                None
            }
        },
        State::HalfOpen { probes } => {
            if probes < half_open_max {
                entry.state = State::HalfOpen { probes: probes + 1 };
                Some(CircuitDecision::HalfOpenProbe)
            } else {
                None
            }
        },
    }
}

/// Records a failure at `now` on a circuit, and says whether it opened.
pub fn record_failure_on(
    entry: &mut HostCircuit,
    now: u64,
    window: crate::time::Duration,
    threshold: u32,
    open_duration: crate::time::Duration,
) -> (r: bool)
    ensures
        (final(entry)@, r) == on_failure(
            old(entry)@,
            now,
            window.spec_nanos(),
            threshold,
            open_duration.spec_nanos(),
        ),
{
    let span: u128 = window.as_nanos();
    let mut kept: Vec<u64> = Vec::new();
    let ghost all = entry.failures@;
    let mut i: usize = 0;
    while i < entry.failures.len()
        invariant
            i <= all.len(),
            all == entry.failures@,
            span == window.spec_nanos(),
            kept@ == recent(all.take(i as int), now, span as nat),
            kept@.len() <= i,
        decreases all.len() - i,
    {
        proof {
            assert(all.take(i + 1).drop_last() == all.take(i as int));
        }
        let then: u64 = entry.failures[i];
        if now <= then || (now - then) as u128 <= span {
            kept.push(then);
        }
        i += 1;
    }
    proof {
        assert(all.take(i as int) == all);
    }
    kept.push(now);
    let probing = match entry.state {
        State::HalfOpen { .. } => true,
        _ => false,
    };
    if probing || kept.len() as u128 >= threshold as u128 {
        let until: u128 = now as u128 + open_duration.as_nanos();
        entry.state = State::Open { until };
        entry.failures = Vec::new();
        true
    } else {
        entry.failures = kept;
        false
    }
}

/// The circuits that a map holds, by host.
pub uninterp spec fn circuits(
    map: dashmap::DashMap<String, HostCircuit, foldhash::fast::RandomState>,
) -> Map<Seq<char>, CircuitView>;

/// A map without circuits.
pub open spec fn no_circuits() -> Map<Seq<char>, CircuitView> {
    Map::empty()
}

/// What taking `host` out of `map` gives.
pub open spec fn taken(
    map: Map<Seq<char>, CircuitView>,
    host: Seq<char>,
    r: Option<HostCircuit>,
) -> bool {
    match r {
        Some(circuit) => map.dom().contains(host) && circuit@ == map[host],
        None => !map.dom().contains(host),
    }
}

/// `dashmap::DashMap::with_hasher`: a map without circuits.
#[verifier::external_body]
fn new_map() -> (r: dashmap::DashMap<String, HostCircuit, foldhash::fast::RandomState>)
    ensures
        circuits(r) == no_circuits(),
{
    dashmap::DashMap::with_hasher(foldhash::fast::RandomState::default())
}

/// `dashmap::DashMap::remove`: the circuit of the host leaves the map and is
/// handed out, where there is one.
#[verifier::external_body]
fn take_circuit(
    map: &mut dashmap::DashMap<String, HostCircuit, foldhash::fast::RandomState>,
    host: &str,
) -> (r: Option<HostCircuit>)
    ensures
        taken(circuits(*old(map)), host@, r),
        circuits(*final(map)) == circuits(*old(map)).remove(host@),
{
    map.remove(host).map(|pair| pair.1)
}

/// `dashmap::DashMap::insert`: the host gets this circuit.
#[verifier::external_body]
fn put_circuit(
    map: &mut dashmap::DashMap<String, HostCircuit, foldhash::fast::RandomState>,
    host: &str,
    circuit: HostCircuit,
)
    ensures
        circuits(*final(map)) == circuits(*old(map)).insert(host@, circuit@),
{
    map.insert(host.to_owned(), circuit);
}

/// Circuit breaker of each upstream host.
pub struct CircuitBreaker {
    enabled: bool,
    failure_threshold: u32,
    window: crate::time::Duration,
    open_duration: crate::time::Duration,
    half_open_max: u32,
    count_5xx: bool,
    hosts: dashmap::DashMap<String, HostCircuit, foldhash::fast::RandomState>,
}

/// The mathematical content of a [`CircuitBreaker`].
pub struct BreakerView {
    /// Master switch.
    pub enabled: bool,
    /// Failures in the window that open a circuit.
    pub failure_threshold: u32,
    /// The window in nanoseconds.
    pub window: nat,
    /// How long a circuit stays open, in nanoseconds.
    pub open_nanos: nat,
    /// Probes under way for a host.
    pub half_open_max: u32,
    /// Whether 5xx responses count as failures.
    pub count_5xx: bool,
    /// The circuits by host.
    pub hosts: Map<Seq<char>, CircuitView>,
}

impl View for CircuitBreaker {
    type V = BreakerView;

    closed spec fn view(&self) -> BreakerView {
        BreakerView {
            enabled: self.enabled,
            failure_threshold: self.failure_threshold,
            window: self.window.spec_nanos(),
            open_nanos: self.open_duration.spec_nanos(),
            half_open_max: self.half_open_max,
            count_5xx: self.count_5xx,
            hosts: circuits(self.hosts),
        }
    }
}

/// At least one.
pub open spec fn at_least_one(n: u32) -> u32 {
    if n == 0 {
        1
    } else {
        n
    }
}

impl BreakerView {
    /// The breaker that `cfg` describes.
    pub open spec fn of(cfg: CircuitBreakerConfig) -> BreakerView {
        BreakerView {
            enabled: cfg.enabled,
            failure_threshold: at_least_one(cfg.failure_threshold),
            window: cfg.window.spec_nanos(),
            open_nanos: cfg.open_duration.spec_nanos(),
            half_open_max: at_least_one(cfg.half_open_max),
            count_5xx: cfg.count_5xx,
            hosts: Map::empty(),
        }
    }

    /// The circuit of `host`.
    pub open spec fn circuit(self, host: Seq<char>) -> CircuitView {
        if self.hosts.dom().contains(host) {
            self.hosts[host]
        } else {
            fresh()
        }
    }

    /// The breaker with this circuit for `host`.
    pub open spec fn with_circuit(self, host: Seq<char>, circuit: CircuitView) -> BreakerView {
        BreakerView { hosts: self.hosts.insert(host, circuit), ..self }
    }

    /// What a check of `host` at `now` makes of the breaker, and its decision.
    pub open spec fn checked(self, host: Seq<char>, now: u64) -> (
        BreakerView,
        Result<CircuitDecision, ErrorView>,
    ) {
        if !self.enabled {
            (self, Ok(CircuitDecision::Closed))
        } else {
            let (circuit, decision) = on_check(self.circuit(host), now, self.half_open_max);
            (
                self.with_circuit(host, circuit),
                match decision {
                    Some(decision) => Ok(decision),
                    None => Err(ErrorView::CircuitOpen(host)),
                },
            )
        }
    }

    /// What a success of `host` makes of the breaker.
    pub open spec fn succeeded(self, host: Seq<char>) -> BreakerView {
        if self.enabled && self.hosts.dom().contains(host) {
            self.with_circuit(host, fresh())
        } else {
            self
        }
    }

    /// What a failure of `host` at `now` makes of the breaker, and whether it
    /// opens the circuit.
    pub open spec fn failed(self, host: Seq<char>, now: u64) -> (BreakerView, bool) {
        if !self.enabled {
            (self, false)
        } else {
            let (circuit, opened) = on_failure(
                self.circuit(host),
                now,
                self.window,
                self.failure_threshold,
                self.open_nanos,
            );
            (self.with_circuit(host, circuit), opened)
        }
    }
}

/// The view of the outcome of a check.
pub open spec fn decision_of(r: Result<CircuitDecision, ProxyError>) -> Result<
    CircuitDecision,
    ErrorView,
> {
    match r {
        Ok(decision) => Ok(decision),
        Err(err) => Err(err@),
    }
}

impl CircuitBreaker {
    /// Compiles the breaker from its configuration.
    pub fn from_config(cfg: &CircuitBreakerConfig) -> (r: CircuitBreaker)
        ensures
            r@ == BreakerView::of(*cfg),
    {
        let failure_threshold: u32 = if cfg.failure_threshold == 0 {
            1
        } else {
            cfg.failure_threshold
        };
        let half_open_max: u32 = if cfg.half_open_max == 0 {
            1
        } else {
            cfg.half_open_max
        };
        CircuitBreaker {
            enabled: cfg.enabled,
            failure_threshold,
            window: cfg.window,
            open_duration: cfg.open_duration,
            half_open_max,
            count_5xx: cfg.count_5xx,
            hosts: new_map(),
        }
    }

    /// Whether upstream 5xx responses are recorded as failures.
    pub fn count_5xx(&self) -> (r: bool)
        ensures
            r == self@.count_5xx,
    {
        self.count_5xx
    }

    fn take(&mut self, host: &str) -> (r: HostCircuit)
        ensures
            r@ == old(self)@.circuit(host@),
            final(self)@ == (BreakerView { hosts: old(self)@.hosts.remove(host@), ..old(self)@ }),
    {
        match take_circuit(&mut self.hosts, host) {
            Some(circuit) => circuit,
            None => HostCircuit::new(),
        }
    }

    fn put(&mut self, host: &str, circuit: HostCircuit)
        ensures
            final(self)@ == old(self)@.with_circuit(host@, circuit@),
    {
        put_circuit(&mut self.hosts, host, circuit);
    }

    /// Checks whether a request to `host` may go on. Where the circuit is open,
    /// or all probes are under way, it may not.
    pub fn check(&mut self, host: &str, now: u64) -> (r: Result<CircuitDecision, ProxyError>)
        ensures
            (final(self)@, decision_of(r)) == old(self)@.checked(host@, now),
    {
        if !self.enabled {
            return Ok(CircuitDecision::Closed);
        }
        let half_open_max: u32 = self.half_open_max;
        let mut entry = self.take(host);
        let decision = transition_on_check(&mut entry, now, half_open_max);
        self.put(host, entry);
        proof {
            let h = old(self)@.hosts;
            assert(h.remove(host@).insert(host@, entry@) =~= h.insert(host@, entry@));
        }
        match decision {
            Some(decision) => Ok(decision),
            None => Err(ProxyError::CircuitOpen(host.to_owned())),
        }
    }

    /// Records a success of `host`, which closes its circuit.
    pub fn record_success(&mut self, host: &str)
        ensures
            final(self)@ == old(self)@.succeeded(host@),
    {
        if !self.enabled {
            return ;
        }
        let found = take_circuit(&mut self.hosts, host);
        if found.is_some() {
            self.put(host, HostCircuit::new());
        }
        proof {
            let h = old(self)@.hosts;
            assert(h.remove(host@).insert(host@, fresh()) =~= h.insert(host@, fresh()));
            if !h.dom().contains(host@) {
                assert(h.remove(host@) =~= h);
            }
        }
    }

    /// Records a failure of `host`, and says whether its circuit opened.
    pub fn record_failure(&mut self, host: &str, now: u64) -> (r: bool)
        ensures
            (final(self)@, r) == old(self)@.failed(host@, now),
    {
        if !self.enabled {
            return false;
        }
        let window = self.window;
        let threshold: u32 = self.failure_threshold;
        let open_duration = self.open_duration;
        let mut entry = self.take(host);
        let opened = record_failure_on(&mut entry, now, window, threshold, open_duration);
        self.put(host, entry);
        proof {
            let h = old(self)@.hosts;
            assert(h.remove(host@).insert(host@, entry@) =~= h.insert(host@, entry@));
        }
        opened
    }
}

/// A circuit after failures at `times`.
pub open spec fn after_failures(
    circuit: CircuitView,
    times: Seq<u64>,
    window: nat,
    threshold: u32,
    open_nanos: nat,
) -> CircuitView
    decreases times.len(),
{
    if times.len() == 0 {
        circuit
    } else {
        on_failure(
            after_failures(circuit, times.drop_last(), window, threshold, open_nanos),
            times.last(),
            window,
            threshold,
            open_nanos,
        ).0
    }
}

/// Failures of which none is older than the window all count.
proof fn lemma_all_recent(failures: Seq<u64>, now: u64, window: nat)
    requires
        forall|i: int| 0 <= i < failures.len() ==> still_counts(#[trigger] failures[i], now, window),
    ensures
        recent(failures, now, window) == failures,
    decreases failures.len(),
{
    if failures.len() > 0 {
        assert(still_counts(failures[failures.len() - 1], now, window));
        assert forall|i: int| 0 <= i < failures.drop_last().len() implies still_counts(
            #[trigger] failures.drop_last()[i],
            now,
            window,
        ) by {
            assert(failures.drop_last()[i] == failures[i]);
        }
        lemma_all_recent(failures.drop_last(), now, window);
        assert(failures.drop_last().push(failures.last()) =~= failures);
    } else {
        assert(failures =~= Seq::<u64>::empty());
    }
}

/// Fewer failures than the threshold leave a circuit closed and counting.
pub proof fn law_stays_closed_below_threshold(
    times: Seq<u64>,
    window: nat,
    threshold: u32,
    open_nanos: nat,
)
    requires
        times.len() < threshold,
        forall|i: int, j: int|
            0 <= i < j < times.len() ==> still_counts(#[trigger] times[i], #[trigger] times[j], window),
    ensures
        after_failures(fresh(), times, window, threshold, open_nanos) == (CircuitView {
            state: State::Closed,
            failures: times,
        }),
    decreases times.len(),
{
    if times.len() > 0 {
        let rest = times.drop_last();
        assert forall|i: int, j: int| 0 <= i < j < rest.len() implies still_counts(
            #[trigger] rest[i],
            #[trigger] rest[j],
            window,
        ) by {
            assert(still_counts(times[i], times[j], window));
        }
        law_stays_closed_below_threshold(rest, window, threshold, open_nanos);
        assert forall|i: int| 0 <= i < rest.len() implies still_counts(
            #[trigger] rest[i],
            times.last(),
            window,
        ) by {
            assert(still_counts(times[i], times[times.len() - 1], window));
        }
        lemma_all_recent(rest, times.last(), window);
        assert(rest.push(times.last()) =~= times);
    } else {
        assert(times =~= Seq::<u64>::empty());
    }
}

/// As many failures as the threshold, all within the window, open a circuit:
/// until its time is over every check is refused, and then it is probed.
pub proof fn law_trips_at_threshold(
    times: Seq<u64>,
    window: nat,
    threshold: u32,
    open_nanos: nat,
    half_open_max: u32,
    now: u64,
)
    requires
        threshold > 0,
        times.len() == threshold,
        open_nanos <= 0x1_0000_0000_0000_0000 * 1_000_000_000,
        forall|i: int, j: int|
            0 <= i < j < times.len() ==> still_counts(#[trigger] times[i], #[trigger] times[j], window),
    ensures
        ({
            let tripped = after_failures(fresh(), times, window, threshold, open_nanos);
            let (probed, decision) = on_check(tripped, now, half_open_max);
            &&& now < times.last() + open_nanos ==> decision is None && probed == tripped
            &&& now >= times.last() + open_nanos ==> decision == Some(
                CircuitDecision::HalfOpenProbe,
            ) && probed.state == (State::HalfOpen { probes: 1 })
        }),
{
    let rest = times.drop_last();
    assert forall|i: int, j: int| 0 <= i < j < rest.len() implies still_counts(
        #[trigger] rest[i],
        #[trigger] rest[j],
        window,
    ) by {
        assert(still_counts(times[i], times[j], window));
    }
    law_stays_closed_below_threshold(rest, window, threshold, open_nanos);
    assert forall|i: int| 0 <= i < rest.len() implies still_counts(
        #[trigger] rest[i],
        times.last(),
        window,
    ) by {
        assert(still_counts(times[i], times[times.len() - 1], window));
    }
    lemma_all_recent(rest, times.last(), window);
}

/// A success forgets all failures: the next check passes, and a later failure
/// counts as the first.
pub proof fn law_success_resets(breaker: BreakerView, host: Seq<char>, now: u64)
    requires
        breaker.enabled,
    ensures
        breaker.succeeded(host).circuit(host) == fresh(),
        breaker.succeeded(host).checked(host, now).1 == Ok::<CircuitDecision, ErrorView>(
            CircuitDecision::Closed,
        ),
{
}

/// A breaker that is switched off never rejects and never changes.
pub proof fn law_disabled_never_trips(breaker: BreakerView, host: Seq<char>, now: u64)
    requires
        !breaker.enabled,
    ensures
        breaker.checked(host, now) == (
            breaker,
            Ok::<CircuitDecision, ErrorView>(CircuitDecision::Closed),
        ),
        breaker.failed(host, now) == (breaker, false),
        breaker.succeeded(host) == breaker,
{
}

/// What happens to one host leaves every other host as it was.
pub proof fn law_hosts_are_independent(
    breaker: BreakerView,
    host: Seq<char>,
    other: Seq<char>,
    now: u64,
)
    requires
        host != other,
    ensures
        breaker.checked(host, now).0.circuit(other) == breaker.circuit(other),
        breaker.failed(host, now).0.circuit(other) == breaker.circuit(other),
        breaker.succeeded(host).circuit(other) == breaker.circuit(other),
{
}

/// What a breaker is told of a host.
pub enum HostEvent {
    /// A request is about to be sent.
    Check(u64),
    /// A request failed.
    Failure(u64),
    /// A request succeeded.
    Success,
}

/// A breaker after events, each of one host.
pub open spec fn after_events(
    breaker: BreakerView,
    events: Seq<(Seq<char>, HostEvent)>,
) -> BreakerView
    decreases events.len(),
{
    if events.len() == 0 {
        breaker
    } else {
        let before = after_events(breaker, events.drop_last());
        let (host, event) = events.last();
        match event {
            HostEvent::Check(now) => before.checked(host, now).0,
            HostEvent::Failure(now) => before.failed(host, now).0,
            HostEvent::Success => before.succeeded(host),
        }
    }
}

/// Whatever happens to other hosts, in whatever order, leaves a host as it was.
pub proof fn law_other_hosts_never_interfere(
    breaker: BreakerView,
    events: Seq<(Seq<char>, HostEvent)>,
    host: Seq<char>,
)
    requires
        forall|i: int| 0 <= i < events.len() ==> (#[trigger] events[i]).0 != host,
    ensures
        after_events(breaker, events).circuit(host) == breaker.circuit(host),
    decreases events.len(),
{
    if events.len() > 0 {
        let rest = events.drop_last();
        assert forall|i: int| 0 <= i < rest.len() implies (#[trigger] rest[i]).0 != host by {
            assert(rest[i] == events[i]);
        }
        law_other_hosts_never_interfere(breaker, rest, host);
        assert(events[events.len() - 1].0 != host);
    }
}

/// The circuit after checks at `times`, and how many of them passed.
pub open spec fn after_checks(circuit: CircuitView, times: Seq<u64>, half_open_max: u32) -> (
    CircuitView,
    nat,
)
    decreases times.len(),
{
    if times.len() == 0 {
        (circuit, 0)
    } else {
        let (before, passed) = after_checks(circuit, times.drop_last(), half_open_max);
        let (after, decision) = on_check(before, times.last(), half_open_max);
        (
            after,
            if decision is Some {
                passed + 1
            } else {
                passed
            },
        )
    }
}

/// However many checks an open circuit sees before a probe is answered, no more
/// of them pass than the probe budget.
pub proof fn law_probes_never_exceed_budget(
    circuit: CircuitView,
    times: Seq<u64>,
    half_open_max: u32,
)
    requires
        circuit.state is Open,
        half_open_max > 0,
    ensures
        after_checks(circuit, times, half_open_max).1 <= half_open_max,
        match after_checks(circuit, times, half_open_max).0.state {
            State::Closed => false,
            State::Open { .. } => after_checks(circuit, times, half_open_max).1 == 0,
            State::HalfOpen { probes } => after_checks(circuit, times, half_open_max).1 == probes,
        },
    decreases times.len(),
{
    if times.len() > 0 {
        law_probes_never_exceed_budget(circuit, times.drop_last(), half_open_max);
    }
}

/// No more probes pass than the budget: while a circuit is being probed, a
/// check passes exactly where probes are left, and never exceeds the budget.
pub proof fn law_probe_budget(circuit: CircuitView, now: u64, half_open_max: u32)
    requires
        circuit.state matches State::HalfOpen { probes } && probes <= half_open_max,
    ensures
        ({
            let (after, decision) = on_check(circuit, now, half_open_max);
            let left = half_open_max - circuit.state->probes;
            &&& decision is Some <==> left > 0
            &&& after.state matches State::HalfOpen { probes } && probes == circuit.state->probes
                + if left > 0 {
                1int
            } else {
                0
            }
        }),
{
}

/// A failed probe opens the circuit again at once.
pub proof fn law_failed_probe_reopens(
    circuit: CircuitView,
    now: u64,
    window: nat,
    threshold: u32,
    open_nanos: nat,
)
    requires
        circuit.state is HalfOpen,
    ensures
        on_failure(circuit, now, window, threshold, open_nanos).1,
        on_failure(circuit, now, window, threshold, open_nanos).0.state is Open,
{
}

} // verus!
