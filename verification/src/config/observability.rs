//! Logs, metrics and traces.

use vstd::prelude::*;

verus! {

/// Log output formats.
#[derive(Clone, Copy, Debug, PartialEq, Eq, Structural)]
pub enum LogFormat {
    /// For people.
    Pretty,
    /// One JSON object for each event.
    Json,
}

/// Wire protocols of the trace export.
#[derive(Clone, Copy, Debug, PartialEq, Eq, Structural)]
pub enum OtelProtocol {
    /// gRPC over HTTP/2.
    Grpc,
    /// Protocol buffers over HTTP/1.1.
    Http,
}

impl Default for OtelProtocol {
    fn default() -> (r: OtelProtocol)
        ensures
            r == OtelProtocol::Grpc,
    {
        OtelProtocol::Grpc
    }
}

/// Trace export.
#[derive(Clone, Debug)]
pub struct OtelConfig {
    /// Master switch.
    pub enabled: bool,
    /// Where the collector listens.
    pub endpoint: String,
    /// Wire protocol.
    pub protocol: OtelProtocol,
    /// Name of the service.
    pub service_name: String,
    /// Namespace of the service.
    pub service_namespace: String,
    /// Further `key=value` attributes.
    pub resource_attributes: Vec<String>,
}

/// Where the collector listens by default.
pub fn default_otel_endpoint() -> (r: String)
    ensures
        r@ == "http://localhost:4317"@,
{
    "http://localhost:4317".to_owned()
}

/// Name of the service by default.
pub fn default_otel_service_name() -> (r: String)
    ensures
        r@ == "corx"@,
{
    "corx".to_owned()
}

impl OtelConfig {
    /// The defaults: no export.
    pub open spec fn is_default(self) -> bool {
        &&& !self.enabled
        &&& self.endpoint@ == "http://localhost:4317"@
        &&& self.protocol == OtelProtocol::Grpc
        &&& self.service_name@ == "corx"@
        &&& self.service_namespace@ == Seq::<char>::empty()
        &&& self.resource_attributes@.len() == 0
    }
}

impl Default for OtelConfig {
    fn default() -> (r: OtelConfig)
        ensures
            r.is_default(),
    {
        OtelConfig {
            enabled: false,
            endpoint: default_otel_endpoint(),
            protocol: OtelProtocol::Grpc,
            service_name: default_otel_service_name(),
            service_namespace: String::new(),
            resource_attributes: Vec::new(),
        }
    }
}

/// Logs, metrics and traces.
#[derive(Clone, Debug)]
pub struct ObservabilityConfig {
    /// Log output format.
    pub log_format: LogFormat,
    /// Filter of the log.
    pub log_level: String,
    /// Path on which metrics are served.
    pub metrics_endpoint: String,
    /// Trace export.
    pub otel: OtelConfig,
}

impl ObservabilityConfig {
    /// The defaults.
    pub open spec fn is_default(self) -> bool {
        &&& self.log_format == LogFormat::Json
        &&& self.log_level@ == "info"@
        &&& self.metrics_endpoint@ == "/metrics"@
        &&& self.otel.is_default()
    }
}

impl Default for ObservabilityConfig {
    fn default() -> (r: ObservabilityConfig)
        ensures
            r.is_default(),
    {
        ObservabilityConfig {
            log_format: LogFormat::Json,
            log_level: "info".to_owned(),
            metrics_endpoint: "/metrics".to_owned(),
            otel: OtelConfig::default(),
        }
    }
}

} // verus!
