//! Static nodes, announcements and the rows made of them.

use clustat::client::cache::{add_nodes, build_cache, mark_stale, upsert_snapshot, CacheMap};
use clustat::client::discovery::{
    merge_discovered_nodes, parse_announce_for_protocol, parse_multicast_outbound_ips,
    parse_static_nodes, query_sent, static_node_items, DiscoveredNode, Resolved,
};
use clustat::common::message::DiscoveryAnnounce;
use clustat::common::net::NodeAddr;
use clustat::common::snapshot::{GresInfo, GresMemory, GresUtilization, ServerGresSnapshot};

fn addr(raw: &str) -> NodeAddr {
    let (ip, port) = raw.rsplit_once(':').unwrap();
    NodeAddr {
        ip: ip.to_string(),
        port: port.parse().unwrap(),
        ipv4: true,
        scope_id: 0,
        flowinfo: 0,
    }
}

fn resolve(item: &str) -> Resolved {
    match item.rsplit_once(':') {
        Some((ip, port)) if ip.split('.').count() == 4 && port.parse::<u16>().is_ok() => {
            Resolved::Address(addr(item))
        }
        _ => Resolved::Failed("no address".to_string()),
    }
}

fn static_nodes(raw: &str) -> Vec<DiscoveredNode> {
    let items = static_node_items(raw);
    let resolved: Vec<Resolved> = items.iter().map(|item| resolve(item)).collect();
    parse_static_nodes(&resolved, 1_000)
}

/// The announcement in a message, if it has every field that one must have.
fn current(msg: &str) -> Option<DiscoveryAnnounce> {
    let value: serde_json::Value = serde_json::from_str(msg).ok()?;
    Some(DiscoveryAnnounce {
        version: value["version"].as_u64()?.try_into().ok()?,
        hostname: value["hostname"].as_str()?.to_string(),
        ip: value["ip"].as_str()?.to_string(),
        port: value["port"].as_u64()?.try_into().ok()?,
        tcp_port: value["tcp_port"].as_u64().map(|p| p as u16),
        kcp_port: None,
        udp_port: value["udp_port"].as_u64().map(|p| p as u16),
        ttl: None,
        load: None,
        degraded: None,
    })
}

fn parse_announce(msg: &str, src: &NodeAddr) -> Option<DiscoveredNode> {
    parse_announce_for_protocol(msg, current(msg), src, "udp", 1_000)
}

#[test]
fn legacy_announce_without_version_is_accepted() {
    let src = addr("192.0.2.99:40000");
    let node = parse_announce(
        r#"{"hostname":"node-a","ip":"10.1.2.3","port":30001,"ts":1}"#,
        &src,
    )
    .expect("legacy announce should parse");

    assert_eq!(node.hostname, "node-a");
    assert_eq!(node.addr.text(), "192.0.2.99:30001");
}

#[test]
fn announce_version_mismatch_is_rejected() {
    let src = addr("192.0.2.99:40000");
    let node = parse_announce(
        r#"{"version":2,"hostname":"node-a","ip":"10.1.2.3","port":30001}"#,
        &src,
    );
    assert!(node.is_none());
}

#[test]
fn announce_gives_the_port_of_the_protocol() {
    let src = addr("192.0.2.99:40000");
    let msg = r#"{"version":1,"hostname":"node-a","ip":"10.1.2.3","port":30001,"tcp_port":30002,"udp_port":30003}"#;
    let tcp = parse_announce_for_protocol(msg, current(msg), &src, " TCP ", 7).expect("tcp");
    assert_eq!(tcp.addr.text(), "192.0.2.99:30002");
    assert_eq!(tcp.ts_ms, 7);
    let udp = parse_announce_for_protocol(msg, current(msg), &src, "udp", 7).expect("udp");
    assert_eq!(udp.addr.text(), "192.0.2.99:30003");
    let legacy = parse_announce_for_protocol(msg, None, &src, "tcp", 7).expect("legacy");
    assert_eq!(legacy.addr.text(), "192.0.2.99:30002");
    assert!(parse_announce_for_protocol("not json", None, &src, "udp", 7).is_none());
    let wide = r#"{"hostname":"node-a","ip":"10.1.2.3","port":70000}"#;
    assert!(parse_announce_for_protocol(wide, None, &src, "udp", 7).is_none());
}

#[test]
fn announce_with_another_version_is_refused() {
    let src = addr("192.0.2.99:40000");
    for version in ["2", "0", "255", "256", "257", "18446744073709551615"] {
        let msg = format!(
            r#"{{"version":{version},"hostname":"node-a","ip":"10.1.2.3","port":30001}}"#
        );
        assert!(parse_announce(&msg, &src).is_none(), "version {version}");
        assert!(parse_announce_for_protocol(&msg, None, &src, "udp", 7).is_none());
    }
    let msg = r#"{"version":1,"hostname":"node-a","ip":"10.1.2.3","port":30001}"#;
    assert!(parse_announce_for_protocol(msg, None, &src, "udp", 7).is_some());
}

#[test]
fn announce_whose_version_is_no_number_has_none() {
    let src = addr("192.0.2.99:40000");
    for version in ["null", "\"1\"", "true", "[1]", "-1", "1.5"] {
        let msg = format!(
            r#"{{"version":{version},"hostname":"node-a","ip":"10.1.2.3","port":30001}}"#
        );
        assert!(parse_announce(&msg, &src).is_some(), "version {version}");
    }
}

#[test]
fn static_node_parser_accepts_comma_list() {
    let nodes = static_nodes("127.0.0.1:30000, 127.0.0.1:30001");
    assert_eq!(nodes.len(), 2);
    assert_eq!(nodes[0].addr.text(), "127.0.0.1:30000");
    assert_eq!(nodes[1].addr.text(), "127.0.0.1:30001");
}

#[test]
fn static_node_parser_skips_invalid_entries() {
    let nodes = static_nodes("127.0.0.1:30000, 127.0.0.1, bad addr");
    assert_eq!(nodes.len(), 1);
    assert_eq!(nodes[0].addr.text(), "127.0.0.1:30000");
}

#[test]
fn static_node_parser_trims_and_deduplicates() {
    let nodes = static_nodes(" 127.0.0.1:30000 ,127.0.0.1:30000,127.0.0.1:30001 ");
    assert_eq!(nodes.len(), 2);
    assert_eq!(nodes[0].addr.text(), "127.0.0.1:30000");
    assert_eq!(nodes[1].addr.text(), "127.0.0.1:30001");
}

#[test]
fn static_node_parser_supports_multiple_server_ports() {
    let nodes = static_nodes("127.0.0.1:39400,127.0.0.1:39401");
    let addrs: Vec<_> = nodes.iter().map(|node| node.addr.text()).collect();
    assert_eq!(addrs, vec!["127.0.0.1:39400", "127.0.0.1:39401"]);
}

#[test]
fn merge_discovered_nodes_deduplicates_by_addr() {
    let discovered = static_nodes("127.0.0.1:30000");
    let fixed = static_nodes("127.0.0.1:30000,127.0.0.1:30001");
    let merged = merge_discovered_nodes(&discovered, &fixed);
    assert_eq!(merged.len(), 2);
}

#[test]
fn no_discovery_and_no_static_nodes_is_valid_empty_set() {
    let merged = merge_discovered_nodes(&Vec::new(), &static_nodes(""));
    assert!(merged.is_empty());
}

#[test]
fn merged_nodes_are_in_order_and_the_last_counts() {
    let found = vec![
        DiscoveredNode { hostname: "b".to_string(), addr: addr("10.0.0.2:1"), ts_ms: 1 },
        DiscoveredNode { hostname: "a".to_string(), addr: addr("10.0.0.1:1"), ts_ms: 1 },
    ];
    let fixed =
        vec![DiscoveredNode { hostname: "c".to_string(), addr: addr("10.0.0.2:1"), ts_ms: 2 }];
    let merged = merge_discovered_nodes(&found, &fixed);
    assert_eq!(merged.len(), 2);
    assert_eq!(merged[0].hostname, "a");
    assert_eq!(merged[1].hostname, "c");
}

#[test]
fn query_that_was_never_sent_fails() {
    let target = addr("239.0.0.1:4000");
    assert_eq!(query_sent(1, None, &target), Ok(()));
    assert_eq!(query_sent(0, Some("first".to_string()), &target), Err("first".to_string()));
    assert_eq!(
        query_sent(0, None, &target),
        Err("send query to 239.0.0.1:4000 failed on every outbound IP".to_string())
    );
}

#[test]
fn upsert_snapshot_adds_result_to_cache() {
    let mut rows = CacheMap::new();
    let addr = addr("127.0.0.1:30000");

    let before = 1_700_000_000_000;
    upsert_snapshot(
        &mut rows,
        "conn-001",
        &addr,
        ServerGresSnapshot {
            hostname: "test-node".to_string(),
            driver_version: None,
            gres: vec![GresInfo {
                index: 0,
                name: "NVIDIA A100".to_string(),
                temperature_c: None,
                uuid: None,
                memory: GresMemory {
                    used_mb: 1024,
                    total_mb: 81920,
                },
                utilization: GresUtilization {
                    gres_percent: 66,
                    memory_percent: 10,
                },
                processes: Vec::new(),
            }],
        },
        Some(987),
        before,
    );

    let entry = rows.get("127.0.0.1-30000").expect("cache entry");
    assert_eq!(entry.hostname, "test-node");
    assert_eq!(entry.num, 1);
    assert!(entry.record_timestamp >= before);
    assert!(entry.last_snapshot.is_some());
    assert_eq!(entry.last_query_latency_us, Some(987));
}

#[test]
fn rows_are_numbered_and_announcements_keep_them() {
    let mut rows = build_cache(&static_nodes("10.0.0.1:1,10.0.0.2:1"));
    assert_eq!(rows.get("10.0.0.1-1").expect("first").connection_id, "conn-001");
    assert_eq!(rows.get("10.0.0.2-1").expect("second").connection_id, "conn-002");

    mark_stale(&mut rows, "conn-002", &addr("10.0.0.2:1"), "node-b", "gone", 9);
    let more = vec![
        DiscoveredNode { hostname: "node-b".to_string(), addr: addr("10.0.0.9:1"), ts_ms: 5 },
        DiscoveredNode { hostname: "node-c".to_string(), addr: addr("10.0.0.3:1"), ts_ms: 5 },
    ];
    add_nodes(&mut rows, &more);
    assert_eq!(rows.len(), 3);
    assert!(rows.get("10.0.0.9-1").is_none());
    assert_eq!(rows.get("10.0.0.3-1").expect("third").connection_id, "conn-004");
    let failed = rows.get("10.0.0.2-1").expect("second");
    assert_eq!(failed.last_error.as_deref(), Some("gone"));
    assert_eq!(failed.record_timestamp, 9);
    assert!(rows.remove("10.0.0.2-1").is_some());
    assert!(!rows.contains("10.0.0.2-1"));
    assert_eq!(rows.key_at(0), "10.0.0.1-1");
}

#[test]
fn outbound_addresses_are_read() {
    let raw = vec![" 10.0.0.1 ".to_string(), "  ".to_string(), "10.0.0.2".to_string()];
    let none = vec![None, Some("blank".to_string()), None];
    assert_eq!(
        parse_multicast_outbound_ips(&raw, &none),
        Ok(vec!["10.0.0.1".to_string(), "10.0.0.2".to_string()])
    );
    let bad = vec![None, None, Some("invalid IPv4 address syntax".to_string())];
    assert_eq!(
        parse_multicast_outbound_ips(&raw, &bad),
        Err("invalid multicast_outbound_ip '10.0.0.2': invalid IPv4 address syntax".to_string())
    );
}

#[test]
fn scoped_addresses_are_told_apart() {
    let one = NodeAddr {
        ip: "fe80::1".to_string(),
        port: 30000,
        ipv4: false,
        scope_id: 3,
        flowinfo: 0,
    };
    let other = NodeAddr { scope_id: 0, ..one.clone() };
    assert_eq!(one.text(), "[fe80::1%3]:30000");
    assert_eq!(other.text(), "[fe80::1]:30000");
    assert!(!one.equals(&other));
    assert!(one.equals(&one.clone()));
    let flow = NodeAddr { flowinfo: 7, ..one.clone() };
    assert_eq!(flow.text(), one.text());
    assert!(!flow.equals(&one));
    assert_ne!(flow.key(), one.key());
}
