//! Admission policies. They decide only; they do no I/O.
pub mod circuit;
pub mod target;

pub use self::circuit::{CircuitBreaker, CircuitDecision};
pub use self::target::TargetPolicy;
