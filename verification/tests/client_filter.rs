//! Filters of nodes.

use clustat::client::filter::{wildcard_match, NodeFilter};
use clustat::common::net::{AddrPattern, NodeAddr};

fn is_ipv4(raw: &str) -> bool {
    let parts: Vec<&str> = raw.split('.').collect();
    parts.len() == 4 && parts.iter().all(|p| p.parse::<u8>().is_ok())
}

fn addr(raw: &str) -> NodeAddr {
    let (ip, port) = raw.rsplit_once(':').unwrap();
    NodeAddr {
        ip: ip.to_string(),
        port: port.parse().unwrap(),
        ipv4: true,
        scope_id: 0,
        flowinfo: 0,
    }
}

fn classify(raw: &str) -> AddrPattern {
    if is_ipv4(raw) {
        return AddrPattern::Ip(raw.to_string());
    }
    match raw.rsplit_once(':') {
        Some((ip, port)) if is_ipv4(ip) && port.parse::<u16>().is_ok() => {
            AddrPattern::Socket(addr(raw))
        }
        _ => AddrPattern::NotAnAddress,
    }
}

fn parse(raw: Option<&str>) -> NodeFilter {
    NodeFilter::parse(raw, classify)
}

#[test]
fn empty_filter_matches_everything() {
    let filter = parse(None);
    assert!(filter.is_empty());
    assert!(filter.matches_target("node-a", &addr("10.0.0.1:30000"), "conn-001"));
}

#[test]
fn comma_filter_matches_hostname_or_ip() {
    let filter = parse(Some("node-b,10.0.0.1"));
    assert!(filter.matches_target("node-b", &addr("192.168.1.1:30000"), "conn-001"));
    assert!(filter.matches_target("node-a", &addr("10.0.0.1:30000"), "conn-002"));
    assert!(!filter.matches_target("node-c", &addr("10.0.0.2:30000"), "conn-003"));
}

#[test]
fn ip_filter_is_exact_for_plain_ip_patterns() {
    let filter = parse(Some("10.0.0.1"));
    assert!(filter.matches_target("node-a", &addr("10.0.0.1:30000"), "conn-001"));
    assert!(!filter.matches_target("node-b", &addr("10.0.0.10:30000"), "conn-002"));
}

#[test]
fn wildcard_filter_matches_hostname_suffix_and_ip() {
    let filter = parse(Some("*.cluster,10.1.*"));
    assert!(filter.matches_target("gres-a.cluster", &addr("192.168.1.1:30000"), "conn-001"));
    assert!(filter.matches_target("cpu-a", &addr("10.1.2.3:30000"), "conn-002"));
    assert!(!filter.matches_target("cpu-a", &addr("10.2.2.3:30000"), "conn-003"));
}

#[test]
fn bracket_range_preserves_zero_padding() {
    let filter = parse(Some("node[01-03]"));
    assert!(filter.matches_target("node01", &addr("10.0.0.1:30000"), "conn-001"));
    assert!(filter.matches_target("node03", &addr("10.0.0.3:30000"), "conn-003"));
    assert!(!filter.matches_target("node4", &addr("10.0.0.4:30000"), "conn-004"));
}

#[test]
fn bracket_list_expands_without_splitting_inner_commas() {
    let filter = parse(Some("node[1,3,5]"));
    assert_eq!(filter.patterns(), &["node1", "node3", "node5"]);
    assert!(filter.matches_target("node3", &addr("10.0.0.3:30000"), "conn-003"));
    assert!(!filter.matches_target("node4", &addr("10.0.0.4:30000"), "conn-004"));
}

#[test]
fn comma_filter_deduplicates_expanded_patterns() {
    let filter = parse(Some("node1,node[1,3],node3"));
    assert_eq!(filter.patterns(), &["node1", "node3"]);
}

#[test]
fn filter_can_match_connection_id() {
    let filter = parse(Some("conn-007"));
    assert!(filter.matches_target("node-a", &addr("10.0.0.1:30000"), "conn-007"));
}

#[test]
fn filter_can_match_address_and_port() {
    let filter = parse(Some("10.0.0.1:30000"));
    assert!(filter.matches_target("node-a", &addr("10.0.0.1:30000"), "conn-001"));
    assert!(!filter.matches_target("node-a", &addr("10.0.0.1:30001"), "conn-001"));
}

#[test]
fn wildcard_parts_come_in_order() {
    let filter = parse(Some("a*b*c"));
    let at = addr("10.0.0.1:30000");
    assert!(filter.matches_target("axxbyyc", &at, "conn-001"));
    assert!(filter.matches_target("abc", &at, "conn-001"));
    assert!(!filter.matches_target("acb", &at, "conn-001"));
    assert!(!filter.matches_target("xabc", &at, "conn-001"));
}

#[test]
fn wildcard_takes_the_last_part_at_the_end() {
    assert!(wildcard_match("*.cluster", "a.cluster.cluster"));
    assert!(wildcard_match("*.cluster", ".cluster"));
    assert!(!wildcard_match("*.cluster", "a.cluster.x"));
    assert!(wildcard_match("a*b*b", "abbb"));
    assert!(!wildcard_match("a*a", "a"));
    assert!(!wildcard_match("ab*ba", "aba"));
    assert!(wildcard_match("ab*ba", "abba"));
    assert!(wildcard_match("*", ""));
    assert!(wildcard_match("**", "x"));
    assert!(wildcard_match("n*d*-1", "node-a-1-1"));
    assert!(!wildcard_match("n*d*-1", "node-a-1-2"));
    assert!(wildcard_match("gpu-*", "gpu-"));
    assert!(!wildcard_match("gpu-*", "a-gpu-1"));

    let filter = parse(Some("*.cluster"));
    assert!(filter.matches_target("a.cluster.cluster", &addr("192.168.1.1:30000"), "conn-001"));
}
