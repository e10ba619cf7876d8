//! The checks on the configuration of a client.

use vstd::prelude::*;
use crate::common::config::Config;
use crate::text::{lowered, same, same_ignoring_case, to_lower, trim, trimmed};

verus! {

pub const DEFAULT_CONFIG_PATH: &'static str = "/etc/clustat/client.toml";

/// Where the configuration is read from: the path in the environment, if it
/// has one.
pub fn config_path(env: Option<String>) -> (r: String)
    ensures
        r@ == (match env {
            Some(path) => path@,
            None => DEFAULT_CONFIG_PATH@,
        }),
{
    match env {
        Some(path) => path,
        None => DEFAULT_CONFIG_PATH.to_owned(),
    }
}

/// The name of a protocol as it is compared.
pub open spec fn protocol_name(raw: Seq<char>) -> Seq<char> {
    lowered(trimmed(raw))
}

/// What is wrong with a configuration, if anything.
pub open spec fn config_fault(cfg: Config) -> Option<Seq<char>> {
    let protocol = protocol_name(cfg.connecting.protocol@);
    if protocol != "udp"@ && protocol != "tcp"@ {
        Some("invalid connecting.protocol '"@ + protocol + "': expected 'udp' or 'tcp'"@)
    } else if cfg.connecting.heartbeat_interval == 0 {
        Some("invalid connecting.heartbeat_interval: must be > 0"@)
    } else if cfg.connecting.connection_idle_timeout == 0 {
        Some("invalid connecting.connection_idle_timeout: must be > 0"@)
    } else if cfg.connecting.max_connections == 0 {
        Some("invalid connecting.max_connections: must be > 0"@)
    } else {
        None
    }
}

/// Checks a configuration that has been read.
pub fn check_config(cfg: &Config) -> (r: Result<(), String>)
    ensures
        match r {
            Ok(()) => config_fault(*cfg) is None,
            Err(e) => config_fault(*cfg) == Some(e@),
        },
{
    let protocol = to_lower(trim(cfg.connecting.protocol.as_str()).as_str());
    if !same(protocol.as_str(), "udp") && !same(protocol.as_str(), "tcp") {
        let mut out = "invalid connecting.protocol '".to_owned();
        out.append(protocol.as_str());
        out.append("': expected 'udp' or 'tcp'");
        return Err(out);
    }
    if cfg.connecting.heartbeat_interval == 0 {
        return Err("invalid connecting.heartbeat_interval: must be > 0".to_owned());
    }
    if cfg.connecting.connection_idle_timeout == 0 {
        return Err("invalid connecting.connection_idle_timeout: must be > 0".to_owned());
    }
    if cfg.connecting.max_connections == 0 {
        return Err("invalid connecting.max_connections: must be > 0".to_owned());
    }
    Ok(())
}

/// Whether KCP is asked for: by the environment, which counts if it says
/// anything, or by the protocol.
pub fn kcp_enabled_requested(protocol: &str, env: Option<&str>) -> (r: bool)
    ensures
        r == (match env {
            Some(v) => v@ == "1"@ || lowered(v@) == lowered("true"@) || lowered(v@) == lowered(
                "yes"@,
            ),
            None => lowered(protocol@) == lowered("kcp"@),
        }),
{
    match env {
        Some(v) => same(v, "1") || same_ignoring_case(v, "true") || same_ignoring_case(v, "yes"),
        None => same_ignoring_case(protocol, "kcp"),
    }
}

} // verus!
