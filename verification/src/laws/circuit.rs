//! Laws of the circuit breaker.

use vstd::prelude::*;

use crate::config::circuit::CircuitBreakerConfig;
use crate::error::ErrorView;
use crate::policy::circuit::{
    after_failures, on_check, on_failure, recent, BreakerView, CircuitDecision, CircuitView, State,
};

verus! {

/// Whether a time lies no further back from `now` than `window`.
pub open spec fn in_window(now: u64, window: nat) -> spec_fn(u64) -> bool {
    |t: u64| now - t <= window
}

/// The times that lie no further back from `now` than `window`.
pub open spec fn within(times: Seq<u64>, now: u64, window: nat) -> Seq<u64> {
    times.filter(in_window(now, window))
}

proof fn lemma_recent(times: Seq<u64>, now: u64, window: nat)
    ensures
        recent(times, now, window) == within(times, now, window),
    decreases times.len(),
{
    reveal(Seq::filter);
    if times.len() > 0 {
        lemma_recent(times.drop_last(), now, window);
    }
}

/// After a failure, the failures that count are those recorded within the
/// window, and the new one. The circuit opens exactly where they are as many as
/// the threshold, or where it was being probed; it then rejects for the open
/// time and has forgotten all failures. Otherwise its state is as it was, and
/// what it has recorded are the failures that count, in order.
pub proof fn law_failures_count_within_the_window(
    circuit: CircuitView,
    now: u64,
    window: nat,
    threshold: u32,
    open_nanos: nat,
)
    requires
        open_nanos <= 0x1_0000_0000_0000_0000 * 1_000_000_000,
    ensures
        ({
            let (after, opened) = on_failure(circuit, now, window, threshold, open_nanos);
            let counted = within(circuit.failures, now, window).len() + 1;
            &&& opened <==> (circuit.state is HalfOpen || counted >= threshold)
            &&& opened ==> (after.state matches State::Open { until } && until == now + open_nanos)
                && after.failures.len() == 0
            &&& !opened ==> after.state == circuit.state && after.failures == within(
                circuit.failures,
                now,
                window,
            ).push(now)
        }),
{
    lemma_recent(circuit.failures, now, window);
}

/// No time older than the window is ever kept, and none that is not is lost.
pub proof fn law_old_failures_are_forgotten(
    circuit: CircuitView,
    now: u64,
    window: nat,
    threshold: u32,
    open_nanos: nat,
    t: u64,
)
    requires
        !on_failure(circuit, now, window, threshold, open_nanos).1,
    ensures
        ({
            let kept = on_failure(circuit, now, window, threshold, open_nanos).0.failures;
            kept.contains(t) <==> (t == now || (circuit.failures.contains(t) && now - t <= window))
        }),
{
    lemma_recent(circuit.failures, now, window);
    let kept = within(circuit.failures, now, window);
    let pred = in_window(now, window);
    if circuit.failures.contains(t) && pred(t) {
        let i = choose|i: int| 0 <= i < circuit.failures.len() && circuit.failures[i] == t;
        circuit.failures.lemma_filter_contains(pred, i);
    }
    let all = kept.push(now);
    assert(all[kept.len() as int] == now);
    if kept.contains(t) {
        let i = choose|i: int| 0 <= i < kept.len() && kept[i] == t;
        assert(all[i] == t);
    }
    if all.contains(t) && t != now {
        let i = choose|i: int| 0 <= i < all.len() && all[i] == t;
        assert(kept[i] == t);
        circuit.failures.lemma_filter_pred(pred, i);
        circuit.failures.lemma_filter_contains_rev(pred, t);
    }
}

/// Failures of which no `threshold` lie within one window of each other never
/// open a circuit, however many there are: here, failures each of which comes
/// more than a window after all before it.
pub proof fn law_sparse_failures_never_open(
    times: Seq<u64>,
    window: nat,
    threshold: u32,
    open_nanos: nat,
)
    requires
        threshold >= 2,
        forall|i: int, j: int| 0 <= i < j < times.len() ==> #[trigger] times[j] - #[trigger] times[i] > window,
    ensures
        ({
            let start = CircuitView { state: State::Closed, failures: Seq::empty() };
            let after = after_failures(start, times, window, threshold, open_nanos);
            &&& after.state == State::Closed
            &&& times.len() > 0 ==> after.failures == seq![times.last()]
        }),
    decreases times.len(),
{
    let start = CircuitView { state: State::Closed, failures: Seq::empty() };
    if times.len() > 0 {
        let rest = times.drop_last();
        assert forall|i: int, j: int| 0 <= i < j < rest.len() implies #[trigger] rest[j]
            - #[trigger] rest[i] > window by {
            assert(times[j] - times[i] > window);
        }
        law_sparse_failures_never_open(rest, window, threshold, open_nanos);
        let before = after_failures(start, rest, window, threshold, open_nanos);
        lemma_recent(before.failures, times.last(), window);
        reveal(Seq::filter);
        if rest.len() > 0 {
            assert(times[times.len() - 1] - times[rest.len() - 1] > window);
            assert(before.failures.drop_last() =~= Seq::<u64>::empty());
            reveal_with_fuel(Seq::filter, 2);
        }
        assert(within(before.failures, times.last(), window) =~= Seq::<u64>::empty());
        assert(Seq::<u64>::empty().push(times.last()) =~= seq![times.last()]);
    }
}

/// What a check does: a closed circuit lets every request pass. An open one
/// rejects until its time and lets the first probe pass from then on. One that
/// is being probed lets probes pass while fewer than the budget have. A check
/// never touches the recorded failures, and a rejected one changes nothing.
pub proof fn law_check(circuit: CircuitView, now: u64, half_open_max: u32)
    ensures
        ({
            let (after, decision) = on_check(circuit, now, half_open_max);
            &&& after.failures == circuit.failures
            &&& decision is None ==> after == circuit
            &&& circuit.state is Closed ==> decision == Some(CircuitDecision::Closed) && after
                == circuit
            &&& circuit.state matches State::Open { until } ==> {
                &&& now < until ==> decision is None
                &&& now >= until ==> decision == Some(CircuitDecision::HalfOpenProbe) && after.state
                    == (State::HalfOpen { probes: 1 })
            }
            &&& circuit.state matches State::HalfOpen { probes } ==> {
                &&& probes >= half_open_max ==> decision is None
                &&& probes < half_open_max ==> decision == Some(CircuitDecision::HalfOpenProbe)
                    && (after.state matches State::HalfOpen { probes: more } && more == probes + 1)
            }
        }),
{
}

/// A breaker is compiled as it is configured, with a threshold and a probe
/// budget of at least one, and knows no host yet: the first request to any host
/// passes.
pub proof fn law_compiled_breaker(cfg: CircuitBreakerConfig, host: Seq<char>, now: u64)
    ensures
        ({
            let breaker = BreakerView::of(cfg);
            &&& breaker.enabled == cfg.enabled
            &&& breaker.count_5xx == cfg.count_5xx
            &&& breaker.window == cfg.window.spec_nanos()
            &&& breaker.open_nanos == cfg.open_duration.spec_nanos()
            &&& breaker.failure_threshold >= 1 && breaker.half_open_max >= 1
            &&& cfg.failure_threshold >= 1 ==> breaker.failure_threshold == cfg.failure_threshold
            &&& cfg.half_open_max >= 1 ==> breaker.half_open_max == cfg.half_open_max
            &&& cfg.failure_threshold == 0 ==> breaker.failure_threshold == 1
            &&& cfg.half_open_max == 0 ==> breaker.half_open_max == 1
            &&& breaker.checked(host, now).1 == Ok::<CircuitDecision, ErrorView>(
                CircuitDecision::Closed,
            )
        }),
{
}

/// Every failure of a host goes to its own circuit, by the thresholds of the
/// breaker: with the breaker on, it reports that the circuit opened exactly
/// where enough failures of this host lie within the window or the host was
/// being probed, and from then on, for the open time, requests to the host are
/// rejected with its name.
pub proof fn law_breaker_opens(breaker: BreakerView, host: Seq<char>, now: u64, later: u64)
    requires
        breaker.enabled,
        breaker.open_nanos <= 0x1_0000_0000_0000_0000 * 1_000_000_000,
    ensures
        ({
            let before = breaker.circuit(host);
            let (after, opened) = breaker.failed(host, now);
            &&& opened <==> (before.state is HalfOpen || within(
                before.failures,
                now,
                breaker.window,
            ).len() + 1 >= breaker.failure_threshold)
            &&& opened && later < now + breaker.open_nanos ==> after.checked(host, later).1 == Err::<
                CircuitDecision,
                ErrorView,
            >(ErrorView::CircuitOpen(host))
            &&& opened && later >= now + breaker.open_nanos ==> after.checked(host, later).1 == Ok::<
                CircuitDecision,
                ErrorView,
            >(CircuitDecision::HalfOpenProbe)
            &&& !opened && before.state is Closed ==> after.checked(host, later).1 == Ok::<
                CircuitDecision,
                ErrorView,
            >(CircuitDecision::Closed)
            &&& !opened ==> after.circuit(host).failures == within(
                before.failures,
                now,
                breaker.window,
            ).push(now)
            &&& after == (BreakerView { hosts: after.hosts, ..breaker })
        }),
{
    lemma_recent(breaker.circuit(host).failures, now, breaker.window);
}

/// A success forgets all: the circuit of the host is closed and has no failure
/// recorded, whatever it was.
pub proof fn law_success_forgets(breaker: BreakerView, host: Seq<char>, now: u64)
    requires
        breaker.enabled,
    ensures
        ({
            let after = breaker.succeeded(host);
            &&& after.circuit(host).state == State::Closed
            &&& after.circuit(host).failures.len() == 0
            &&& after == (BreakerView { hosts: after.hosts, ..breaker })
            &&& after.checked(host, now).1 == Ok::<CircuitDecision, ErrorView>(
                CircuitDecision::Closed,
            )
        }),
{
}

/// A check of a host is kept in the circuit of that host: what a probe used up
/// stays used up.
pub proof fn law_breaker_check(breaker: BreakerView, host: Seq<char>, now: u64)
    requires
        breaker.enabled,
    ensures
        ({
            let before = breaker.circuit(host);
            let (after, decision) = breaker.checked(host, now);
            let (circuit, outcome) = on_check(before, now, breaker.half_open_max);
            &&& after.circuit(host) == circuit
            &&& after == (BreakerView { hosts: after.hosts, ..breaker })
            &&& outcome is None ==> decision == Err::<CircuitDecision, ErrorView>(
                ErrorView::CircuitOpen(host),
            )
            &&& outcome matches Some(d) ==> decision == Ok::<CircuitDecision, ErrorView>(d)
        }),
{
}

/// Hosts have circuits of their own: nothing that happens to one host changes
/// the circuit of another, or what a request to it is told.
pub proof fn law_hosts_are_apart(
    breaker: BreakerView,
    host: Seq<char>,
    other: Seq<char>,
    now: u64,
    later: u64,
)
    requires
        host != other,
    ensures
        breaker.checked(host, now).0.circuit(other) == breaker.circuit(other),
        breaker.succeeded(host).circuit(other) == breaker.circuit(other),
        breaker.failed(host, now).0.circuit(other) == breaker.circuit(other),
        breaker.failed(host, now).0.checked(other, later).1 == breaker.checked(other, later).1,
        breaker.succeeded(host).checked(other, later).1 == breaker.checked(other, later).1,
{
}

/// A breaker that is off lets every request pass and learns nothing.
pub proof fn law_breaker_off(breaker: BreakerView, host: Seq<char>, now: u64)
    requires
        !breaker.enabled,
    ensures
        breaker.checked(host, now) == (
            breaker,
            Ok::<CircuitDecision, ErrorView>(CircuitDecision::Closed),
        ),
        breaker.succeeded(host) == breaker,
        breaker.failed(host, now) == (breaker, false),
{
}

} // verus!
