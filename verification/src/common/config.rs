//! The configuration and its defaults.

use vstd::prelude::*;

verus! {

/// How nodes and clients reach each other.
#[derive(Debug, Clone, PartialEq, Eq)]
pub struct ConnectingConfig {
    /// The first and the last port that a node may listen on.
    pub port_range: [u16; 2],
    pub multicast_addr: String,
    pub tcp_port: u16,
    pub udp_port: u16,
    pub udp_mtu: u16,
    pub protocol: String,
    pub heartbeat_interval: u64,
    pub connection_idle_timeout: u64,
    pub max_connections: usize,
    pub discover_wait_secs: u64,
    pub multicast_retry_limit: u32,
    pub multicast_outbound_ip: Vec<String>,
}

/// Logging.
#[derive(Debug, Clone, PartialEq, Eq)]
pub struct LogConfig {
    pub max_size: String,
}

/// The services of a node and of a client.
#[derive(Debug, Clone, PartialEq, Eq)]
pub struct ServicesConfig {
    pub cache_ttl_ms: u64,
    pub collector_interval_ms: u64,
    pub latency_display: bool,
    pub uds_path: Option<String>,
}

/// What the machine provides.
#[derive(Debug, Clone, PartialEq, Eq)]
pub struct RuntimeConfig {
    pub nvml_lib_path: Option<String>,
}

impl Default for RuntimeConfig {
    fn default() -> (r: RuntimeConfig)
        ensures
            r.nvml_lib_path is None,
    {
        RuntimeConfig { nvml_lib_path: None }
    }
}

/// The whole configuration.
#[derive(Debug, Clone, PartialEq, Eq)]
pub struct Config {
    pub connecting: ConnectingConfig,
    pub log: LogConfig,
    pub services: ServicesConfig,
    pub runtime: RuntimeConfig,
}

pub fn default_heartbeat_interval_secs() -> (r: u64)
    ensures
        r == 5,
{
    5
}

pub fn default_connection_idle_timeout_secs() -> (r: u64)
    ensures
        r == 10,
{
    10
}

pub fn default_max_connections() -> (r: usize)
    ensures
        r == 64,
{
    64
}

pub fn default_protocol() -> (r: String)
    ensures
        r@ == "udp"@,
{
    "udp".to_owned()
}

pub fn default_tcp_port() -> (r: u16)
    ensures
        r == 0,
{
    0
}

pub fn default_udp_port() -> (r: u16)
    ensures
        r == 0,
{
    0
}

pub fn default_udp_mtu() -> (r: u16)
    ensures
        r == 0,
{
    0
}

pub fn default_discover_wait_secs() -> (r: u64)
    ensures
        r == 5,
{
    5
}

pub fn default_multicast_retry_limit() -> (r: u32)
    ensures
        r == 5,
{
    5
}

pub fn default_log_max_size() -> (r: String)
    ensures
        r@ == "5mb"@,
{
    "5mb".to_owned()
}

pub fn default_cache_ttl_ms() -> (r: u64)
    ensures
        r == 40,
{
    40
}

pub fn default_collector_interval_ms() -> (r: u64)
    ensures
        r == 25,
{
    25
}

pub fn default_latency_display() -> (r: bool)
    ensures
        r,
{
    true
}

} // verus!
