//! `corx`: the verified engine of a CORS forwarding proxy.
use vstd::prelude::*;

pub mod basic;
pub mod config;
pub mod error;
pub mod header;
pub mod laws;
pub mod message;
pub mod net;
pub mod observability;
pub mod policy;
pub mod proxy;
pub mod text;
pub mod time;
pub mod uri;
pub mod util;

verus! {

/// Version of the proxy.
pub const VERSION: &'static str = "0.2.0";

} // verus!
