//! The inbound listener.

use vstd::prelude::*;

use crate::config::tls::TlsConfig;
use crate::net::{IpAddr, SocketAddr};
use crate::time::Duration;

verus! {

/// The inbound listener.
#[derive(Clone, Debug)]
pub struct ServerConfig {
    /// Address to listen on.
    pub bind: SocketAddr,
    /// Number of worker threads; `0` leaves the choice to the runtime.
    pub workers: usize,
    /// How long requests under way may take after a shutdown signal.
    pub graceful_shutdown: Duration,
    /// Whether HTTP/2 is offered.
    pub http2: bool,
    /// TLS, where it is used.
    pub tls: Option<TlsConfig>,
}

impl ServerConfig {
    /// The defaults: port 8080 on every IPv4 address, without TLS.
    pub open spec fn is_default(self) -> bool {
        &&& self.bind == (SocketAddr { ip: IpAddr::V4(0), port: 8080 })
        &&& self.workers == 0
        &&& self.graceful_shutdown.spec_nanos() == 30 * 1_000_000_000
        &&& self.http2
        &&& self.tls is None
    }
}

impl Default for ServerConfig {
    fn default() -> (r: ServerConfig)
        ensures
            r.is_default(),
    {
        ServerConfig {
            bind: SocketAddr { ip: IpAddr::v4(0, 0, 0, 0), port: 8080 },
            workers: 0,
            graceful_shutdown: Duration::from_secs(30),
            http2: true,
            tls: None,
        }
    }
}

} // verus!
