//! Engine configuration.

use vstd::prelude::*;
use crate::error::Error;

verus! {

/// Decision-cache configuration.
#[derive(Debug, Clone)]
pub struct CacheConfig {
    /// Whether the decision cache is enabled
    pub enabled: bool,
    /// Maximum number of entries the in-memory cache holds
    pub l1_max_entries: usize,
    /// Time to live of a cached decision, in seconds
    pub l1_ttl_seconds: u64,
}

impl Default for CacheConfig {
    fn default() -> (r: Self)
        ensures
            r.enabled,
            r.l1_max_entries == 10000,
            r.l1_ttl_seconds == 300,
    {
        CacheConfig { enabled: true, l1_max_entries: 10000, l1_ttl_seconds: 300 }
    }
}

/// Telemetry configuration.
#[derive(Debug, Clone)]
pub struct TelemetryConfig {
    /// Whether telemetry is enabled
    pub enabled: bool,
    /// Service name reported with every metric
    pub service_name: String,
}

impl Default for TelemetryConfig {
    fn default() -> (r: Self)
        ensures
            r.enabled,
            r.service_name@ == "llm-policy-engine"@,
    {
        TelemetryConfig { enabled: true, service_name: "llm-policy-engine".to_owned() }
    }
}

/// Server configuration, used by hosting layers.
#[derive(Debug, Clone)]
pub struct ServerConfig {
    /// HTTP port
    pub port: u16,
    /// gRPC port
    pub grpc_port: u16,
}

impl Default for ServerConfig {
    fn default() -> (r: Self)
        ensures
            r.port == 3000,
            r.grpc_port == 50051,
    {
        ServerConfig { port: 3000, grpc_port: 50051 }
    }
}

/// Base addresses and timeout of the platform integrations.
#[derive(Debug, Clone)]
pub struct IntegrationsConfig {
    /// Threat-scanning service address
    pub shield_url: Option<String>,
    /// Cost-tracking service address
    pub costops_url: Option<String>,
    /// Compliance service address
    pub governance_url: Option<String>,
    /// Edge-distribution service address
    pub edge_agent_url: Option<String>,
    /// Incident service address
    pub incident_manager_url: Option<String>,
    /// Security-monitoring service address
    pub sentinel_url: Option<String>,
    /// Request timeout, in seconds
    pub timeout_seconds: u64,
}

impl Default for IntegrationsConfig {
    fn default() -> (r: Self)
        ensures
            r.shield_url is None,
            r.costops_url is None,
            r.governance_url is None,
            r.edge_agent_url is None,
            r.incident_manager_url is None,
            r.sentinel_url is None,
            r.timeout_seconds == 5,
    {
        IntegrationsConfig {
            shield_url: None,
            costops_url: None,
            governance_url: None,
            edge_agent_url: None,
            incident_manager_url: None,
            sentinel_url: None,
            timeout_seconds: 5,
        }
    }
}

/// Engine configuration.
#[derive(Debug, Clone)]
pub struct Config {
    /// Decision-cache settings
    pub cache: CacheConfig,
    /// Telemetry settings
    pub telemetry: TelemetryConfig,
    /// Server settings
    pub server: ServerConfig,
    /// Integration settings
    pub integrations: IntegrationsConfig,
}

impl Default for Config {
    fn default() -> (r: Self)
        ensures
            r.cache.enabled,
            r.cache.l1_max_entries == 10000,
            r.cache.l1_ttl_seconds == 300,
            r.telemetry.enabled,
    {
        Config {
            cache: CacheConfig::default(),
            telemetry: TelemetryConfig::default(),
            server: ServerConfig::default(),
            integrations: IntegrationsConfig::default(),
        }
    }
}

impl Config {
    /// Validate the configuration: an enabled cache needs room for at least
    /// one entry.
    pub fn validate(&self) -> (r: Result<(), Error>)
        ensures
            r is Ok <==> (self.cache.enabled ==> self.cache.l1_max_entries >= 1),
            r matches Err(e) ==> e is Config,
    {
        if self.cache.enabled && self.cache.l1_max_entries == 0 {
            return Err(Error::config("cache capacity must be at least one entry"));
        }
        Ok(())
    }
}

} // verus!
