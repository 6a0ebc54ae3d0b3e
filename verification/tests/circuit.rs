//! The circuit breaker.

use corx::config::CircuitBreakerConfig;
use corx::error::ProxyError;
use corx::policy::circuit::{
    record_failure_on, transition_on_check, CircuitBreaker, CircuitDecision, HostCircuit, State,
};
use corx::time::Duration;

const MS: u64 = 1_000_000;

fn cfg(threshold: u32) -> CircuitBreakerConfig {
    CircuitBreakerConfig {
        enabled: true,
        failure_threshold: threshold,
        window: Duration::from_secs(60),
        open_duration: Duration::from_millis(50),
        half_open_max: 1,
        count_5xx: true,
    }
}

#[test]
fn trips_after_threshold_failures() {
    let mut cb = CircuitBreaker::from_config(&cfg(3));
    assert!(cb.check("h.test", 1).is_ok());
    cb.record_failure("h.test", 2);
    cb.record_failure("h.test", 3);
    assert!(cb.check("h.test", 4).is_ok());
    cb.record_failure("h.test", 5);
    assert!(cb.check("h.test", 6).is_err());
}

#[test]
fn success_resets() {
    let mut cb = CircuitBreaker::from_config(&cfg(2));
    cb.record_failure("h.test", 1);
    cb.record_success("h.test");
    cb.record_failure("h.test", 2);
    assert!(cb.check("h.test", 3).is_ok());
}

#[test]
fn disabled_never_trips() {
    let mut c = cfg(1);
    c.enabled = false;
    let mut cb = CircuitBreaker::from_config(&c);
    cb.record_failure("h.test", 1);
    cb.record_failure("h.test", 2);
    assert!(cb.check("h.test", 3).is_ok());
}

#[test]
fn opens_probes_and_closes() {
    let mut cb = CircuitBreaker::from_config(&cfg(1));
    assert!(cb.record_failure("h.test", 0));
    match cb.check("h.test", 50 * MS - 1) {
        Err(ProxyError::CircuitOpen(host)) => assert_eq!(host, "h.test"),
        other => panic!("unexpected {other:?}"),
    }
    assert_eq!(cb.check("h.test", 50 * MS).unwrap(), CircuitDecision::HalfOpenProbe);
    assert!(cb.check("h.test", 50 * MS).is_err());
    cb.record_success("h.test");
    assert_eq!(cb.check("h.test", 50 * MS).unwrap(), CircuitDecision::Closed);
}

#[test]
fn failed_probe_reopens() {
    let mut cb = CircuitBreaker::from_config(&cfg(3));
    for t in 0..3 {
        cb.record_failure("h.test", t);
    }
    assert!(cb.check("h.test", 51 * MS).is_ok());
    assert!(cb.record_failure("h.test", 52 * MS));
    assert!(cb.check("h.test", 53 * MS).is_err());
    assert!(cb.check("h.test", 102 * MS).is_ok());
}

#[test]
fn hosts_are_independent() {
    let mut cb = CircuitBreaker::from_config(&cfg(1));
    cb.record_failure("a.test", 1);
    assert!(cb.check("a.test", 2).is_err());
    assert!(cb.check("b.test", 2).is_ok());
    cb.record_success("b.test");
    assert!(cb.check("a.test", 2).is_err());
}

#[test]
fn probes_are_limited() {
    let mut c = cfg(1);
    c.half_open_max = 2;
    let mut cb = CircuitBreaker::from_config(&c);
    cb.record_failure("h.test", 0);
    assert!(cb.check("h.test", 60 * MS).is_ok());
    assert!(cb.check("h.test", 60 * MS).is_ok());
    assert!(cb.check("h.test", 60 * MS).is_err());
}

#[test]
fn failures_outside_the_window_do_not_count() {
    let mut c = cfg(2);
    c.window = Duration::from_millis(10);
    let mut cb = CircuitBreaker::from_config(&c);
    assert!(!cb.record_failure("h.test", 0));
    assert!(!cb.record_failure("h.test", 10 * MS + 1));
    assert!(cb.record_failure("h.test", 20 * MS + 1));
}

#[test]
fn zero_limits_mean_one() {
    let mut c = cfg(0);
    c.half_open_max = 0;
    c.count_5xx = false;
    let mut cb = CircuitBreaker::from_config(&c);
    assert!(!cb.count_5xx());
    assert!(cb.check("h.test", 0).is_ok());
    assert!(cb.record_failure("h.test", 0));
    assert!(cb.check("h.test", 60 * MS).is_ok());
    assert!(cb.check("h.test", 60 * MS).is_err());
}

#[test]
fn circuits_step_by_step() {
    let mut circuit = HostCircuit::new();
    assert_eq!(transition_on_check(&mut circuit, 7, 1), Some(CircuitDecision::Closed));
    let window = Duration::from_secs(1);
    let open = Duration::from_secs(2);
    assert!(!record_failure_on(&mut circuit, 7, window, 2, open));
    assert_eq!(circuit.failures, vec![7]);
    assert!(record_failure_on(&mut circuit, 9, window, 2, open));
    assert_eq!(circuit.state, State::Open { until: 2_000_000_009 });
    assert!(circuit.failures.is_empty());
    assert_eq!(transition_on_check(&mut circuit, 2_000_000_008, 1), None);
    assert_eq!(
        transition_on_check(&mut circuit, 2_000_000_009, 1),
        Some(CircuitDecision::HalfOpenProbe)
    );
    assert_eq!(circuit.state, State::HalfOpen { probes: 1 });
}

#[test]
fn defaults_are_conservative() {
    let c = CircuitBreakerConfig::default();
    assert!(c.enabled && c.count_5xx);
    assert_eq!((c.failure_threshold, c.half_open_max), (5, 1));
    assert_eq!((c.window.as_secs(), c.open_duration.as_secs()), (30, 30));
}

#[test]
fn other_hosts_never_interfere() {
    let mut cb = CircuitBreaker::from_config(&cfg(2));
    cb.record_failure("a.test", 1);
    for now in 2..9 {
        cb.record_failure("b.test", now);
        let _ = cb.check("c.test", now);
        cb.record_success("c.test");
    }
    assert!(cb.check("a.test", 9).is_ok());
    assert!(cb.check("b.test", 9).is_err());
    cb.record_failure("a.test", 10);
    assert!(cb.check("a.test", 11).is_err());
}

#[test]
fn probes_never_exceed_the_budget() {
    let mut wide = cfg(1);
    wide.half_open_max = 3;
    let mut cb = CircuitBreaker::from_config(&wide);
    cb.record_failure("h.test", 0);
    let passed = (0..10).filter(|i| cb.check("h.test", (48 + i) * MS).is_ok()).count();
    assert_eq!(passed, 3);
}
