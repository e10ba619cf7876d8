//! Starting a node.

use clustat::common::config::{
    Config, ConnectingConfig, LogConfig, RuntimeConfig, ServicesConfig,
};
use clustat::common::error::ErrorCode;
use clustat::server::startup::{
    after_announce, announce_ips, collector_kind, collector_unavailable, config_path, detect_hostname,
    discovery_announce, first_announce, multicast_route_hint, own_ip, parse_log_size_bytes,
    pick_tcp_port, pick_udp_port, pick_udp_port_excluding, port_candidates, refresh_pause_ns,
    validate_config, validate_multicast_outbound_ips, AnnounceNext, CollectorKind, MulticastLookup,
    StartupError,
};

/// Looks up an address that is written with numbers.
fn lookup(raw: &str) -> MulticastLookup {
    match raw.split('.').next().and_then(|first| first.parse::<u8>().ok()) {
        Some(first) if (224..240).contains(&first) => MulticastLookup::Multicast,
        Some(_) => MulticastLookup::NotMulticast,
        None => MulticastLookup::Failed("invalid socket address".to_string()),
    }
}

fn check(config: &Config) -> Result<(), StartupError> {
    let faults: Vec<Option<String>> =
        config.connecting.multicast_outbound_ip.iter().map(|_| None).collect();
    validate_config(config, &lookup(&config.connecting.multicast_addr), &faults)
}

fn valid_config() -> Config {
    Config {
        connecting: ConnectingConfig {
            port_range: [30_000, 30_010],
            multicast_addr: "239.0.0.1:4000".to_string(),
            tcp_port: 0,
            udp_port: 0,
            udp_mtu: 0,
            protocol: "udp".to_string(),
            heartbeat_interval: 5,
            connection_idle_timeout: 10,
            max_connections: 64,
            discover_wait_secs: 5,
            multicast_retry_limit: 5,
            multicast_outbound_ip: Vec::new(),
        },
        log: LogConfig {
            max_size: "5mb".to_string(),
        },
        services: ServicesConfig {
            cache_ttl_ms: 40,
            collector_interval_ms: 25,
            latency_display: true,
            uds_path: None,
        },
        runtime: RuntimeConfig::default(),
    }
}

#[test]
fn config_validation_rejects_invalid_ttl() {
    let mut config = valid_config();
    config.services.cache_ttl_ms = 0;

    let err = check(&config).expect_err("invalid ttl");

    assert_eq!(err.code, ErrorCode::ConfigInvalid);
    assert!(err.message.contains("cache_ttl_ms"));
}

#[test]
fn config_validation_rejects_invalid_log_size() {
    let mut config = valid_config();
    config.log.max_size = "five mb".to_string();

    let err = check(&config).expect_err("invalid log size");

    assert_eq!(err.code, ErrorCode::ConfigInvalid);
    assert!(err.message.contains("log.max_size"));
}

#[test]
fn config_validation_rejects_invalid_multicast() {
    let mut config = valid_config();
    config.connecting.multicast_addr = "127.0.0.1:4000".to_string();

    let err = check(&config).expect_err("invalid multicast");

    assert_eq!(err.code, ErrorCode::MulticastFailed);
    assert!(err.message.contains("not multicast"));
}

#[test]
fn config_validation_rejects_invalid_port_range_and_timeouts() {
    let mut config = valid_config();
    config.connecting.port_range = [40_000, 30_000];
    assert_eq!(
        check(&config)
            .expect_err("invalid port range")
            .code,
        ErrorCode::ConfigInvalid
    );

    let mut config = valid_config();
    config.connecting.heartbeat_interval = 0;
    assert!(check(&config)
        .expect_err("invalid heartbeat")
        .message
        .contains("heartbeat_interval"));

    let mut config = valid_config();
    config.connecting.connection_idle_timeout = 0;
    assert!(check(&config)
        .expect_err("invalid idle timeout")
        .message
        .contains("connection_idle_timeout"));

    let mut config = valid_config();
    config.connecting.max_connections = 0;
    assert!(check(&config)
        .expect_err("invalid max connections")
        .message
        .contains("max_connections"));

    let mut config = valid_config();
    config.connecting.discover_wait_secs = 0;
    assert!(check(&config)
        .expect_err("invalid discover wait")
        .message
        .contains("discover_wait_secs"));
}

#[test]
fn log_size_parser_accepts_common_units() {
    assert_eq!(parse_log_size_bytes("5mb").unwrap(), 5 * 1024 * 1024);
    assert_eq!(parse_log_size_bytes("1GiB").unwrap(), 1024 * 1024 * 1024);
    assert_eq!(parse_log_size_bytes("512").unwrap(), 512);
}

#[test]
fn valid_configuration_is_accepted() {
    assert_eq!(check(&valid_config()), Ok(()));
    let mut config = valid_config();
    config.connecting.protocol = "smoke".to_string();
    assert_eq!(check(&config).unwrap_err().code, ErrorCode::ConfigInvalid);
    let mut config = valid_config();
    config.connecting.multicast_addr = "nowhere".to_string();
    let err = check(&config).unwrap_err();
    assert_eq!(err.code, ErrorCode::MulticastFailed);
    assert_eq!(err.message, "invalid multicast_addr 'nowhere': invalid socket address");
}

#[test]
fn log_sizes_that_are_none_are_refused() {
    for raw in ["", "mb", "5 light years", "99999999999999999999", "99999999999999999gb"] {
        assert_eq!(parse_log_size_bytes(raw).unwrap_err().code, ErrorCode::ConfigInvalid);
    }
    assert_eq!(parse_log_size_bytes(" 2 KiB ").unwrap(), 2048);
}

#[test]
fn startup_mode_selection_fails_when_nvml_missing() {
    let err = collector_unavailable(ErrorCode::NvmlUnavailable, None);
    assert_eq!(err.code, ErrorCode::NvmlUnavailable);
    assert!(err.message.contains("nvml_lib_path"));
    let err = collector_unavailable(ErrorCode::NvmlUnavailable, Some(" /lib/x "));
    assert!(err.message.contains("runtime.nvml_lib_path='/lib/x'"));
    assert!(err.hint.expect("hint").starts_with("Verify the configured NVML library path"));
}

#[test]
fn candidates_are_the_ports_of_the_range() {
    let ports = port_candidates([30_000, 30_004], 7);
    assert_eq!(ports.len(), 5);
    let mut sorted = ports.clone();
    sorted.sort();
    assert_eq!(sorted, vec![30_000, 30_001, 30_002, 30_003, 30_004]);
}

#[test]
fn ports_are_picked_where_they_can_be_bound() {
    let only = |p: u16| p == 30_003;
    assert_eq!(pick_udp_port([30_000, 30_004], 0, 1, &only), Ok(30_003));
    assert_eq!(pick_udp_port([30_000, 30_004], 30_003, 1, &only), Ok(30_003));
    assert!(pick_udp_port([30_000, 30_004], 30_001, 1, &only).is_err());
    assert!(pick_udp_port_excluding([30_000, 30_004], 0, Some(30_003), 1, &only).is_err());
    assert_eq!(pick_tcp_port([30_000, 30_004], 0, None, 1, &only), Ok(30_003));
}

#[test]
fn outbound_addresses_are_checked_in_turn() {
    let raw = vec!["10.0.0.1".to_string(), "x".to_string()];
    assert_eq!(
        validate_multicast_outbound_ips(&raw, &vec![None, None]),
        Ok(raw.clone())
    );
    let err =
        validate_multicast_outbound_ips(&raw, &vec![None, Some("bad".to_string())]).unwrap_err();
    assert!(err.message.contains("bad"));
}

#[test]
fn hostname_is_the_first_that_is_given() {
    let sources = vec![None, Some(" ".to_string()), Some(" node-a\n".to_string())];
    assert_eq!(detect_hostname(&sources), "node-a");
    assert_eq!(detect_hostname(&Vec::new()), "unknown-host");
    assert_eq!(config_path(None), "/etc/gpustat4cluster/server.toml");
}

#[test]
fn announcements_are_tried_again_up_to_the_limit() {
    assert_eq!(first_announce(0), AnnounceNext::GiveUp);
    assert_eq!(first_announce(3), AnnounceNext::Retry(1));
    assert_eq!(after_announce(1, 3, false), AnnounceNext::Retry(2));
    assert_eq!(after_announce(3, 3, false), AnnounceNext::GiveUp);
    assert_eq!(after_announce(1, 3, true), AnnounceNext::Done);
    let outbound = vec!["10.0.0.1".to_string()];
    assert_eq!(announce_ips(&Vec::new(), "10.0.0.9"), vec!["10.0.0.9"]);
    assert_eq!(announce_ips(&outbound, "10.0.0.9"), vec!["10.0.0.1"]);
    assert_eq!(own_ip(&outbound, "10.0.0.9"), "10.0.0.1");
    assert_eq!(own_ip(&Vec::new(), "10.0.0.9"), "10.0.0.9");
    let announce = discovery_announce("node-a", "10.0.0.1", 30_000, 30_001);
    assert_eq!(announce.port, 30_000);
    assert_eq!(announce.tcp_port, Some(30_001));
    assert_eq!(announce.degraded, Some(false));
}

#[test]
fn missing_routes_are_explained() {
    let plain = multicast_route_hint("send failed".to_string(), Some(1));
    assert_eq!(plain, "send failed");
    let advice = multicast_route_hint("send failed".to_string(), Some(101));
    assert!(advice.starts_with("send failed"));
    assert!(advice.len() > plain.len());
}

#[test]
fn refresh_sleeps_for_the_rest_of_the_interval() {
    assert_eq!(refresh_pause_ns(25, 5_000_000), 20_000_000);
    assert_eq!(refresh_pause_ns(25, 30_000_000), 0);
    assert_eq!(refresh_pause_ns(0, 400_000), 600_000);
}

#[test]
fn collector_is_picked() {
    let path = Some("/tmp/inventory.json");
    assert_eq!(collector_kind(true, path, None), Ok(CollectorKind::Test));
    assert_eq!(collector_kind(true, None, path), Ok(CollectorKind::Nvml));
    assert_eq!(collector_kind(false, None, None), Ok(CollectorKind::Nvml));
    for (inventory, runtime) in [(path, None), (None, path)] {
        let err = collector_kind(false, inventory, runtime).expect_err("not built for it");
        assert_eq!(err.code, ErrorCode::ConfigInvalid);
        assert!(err.message.ends_with("--features debug"));
    }
}
