//! Error codes and defaults of the configuration.

use clustat::common::config::{
    default_cache_ttl_ms, default_collector_interval_ms, default_discover_wait_secs,
    default_latency_display, default_log_max_size, default_max_connections,
    default_multicast_retry_limit, default_protocol, RuntimeConfig,
};
use clustat::common::error::ErrorCode;

#[test]
fn stable_numeric_mapping_roundtrip() {
    let code = ErrorCode::QueryTimeout.code();
    assert_eq!(code, 1008);
    assert_eq!(ErrorCode::from_code(code), Some(ErrorCode::QueryTimeout));
}

#[test]
fn unknown_codes_are_no_error() {
    assert_eq!(ErrorCode::from_code(1), None);
    assert_eq!(ErrorCode::ProtocolVersionMismatch.name(), "ProtocolVersionMismatch");
    assert!(!ErrorCode::ProtocolVersionMismatch.message().is_empty());
}

#[test]
fn defaults_are_those_of_the_service() {
    assert_eq!(default_discover_wait_secs(), 5);
    assert_eq!(default_protocol(), "udp");
    assert_eq!(default_multicast_retry_limit(), 5);
    assert_eq!(default_max_connections(), 64);
    assert_eq!(default_cache_ttl_ms(), 40);
    assert_eq!(default_collector_interval_ms(), 25);
    assert!(default_latency_display());
    assert_eq!(default_log_max_size(), "5mb");
    assert_eq!(RuntimeConfig::default().nvml_lib_path, None);
}
