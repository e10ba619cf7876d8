//! The state behind the socket for frontends.

use clustat::client::adapter::{QueryRequest, QueryResponse};
use clustat::client::cache::{upsert_snapshot, CacheMap, ConnectionCacheEntry};
use clustat::client::discovery::DiscoveredNode;
use clustat::client::filter::NodeFilter;
use clustat::client::local_api::{
    uds_path_from_config_or_env, wants_heartbeat, CommandStep, ConnectOutcome, ConnectStep,
    LocalApiState, Peer, Refresh, RefreshAction, DEFAULT_BACKEND_SOCKET,
};
use clustat::common::net::{AddrPattern, NodeAddr};
use clustat::common::snapshot::{
    GresInfo, GresMemory, GresProcessInfo, GresUtilization, ServerGresSnapshot,
};
use std::collections::HashMap;

fn addr(raw: &str) -> NodeAddr {
    let (ip, port) = raw.rsplit_once(':').unwrap();
    NodeAddr {
        ip: ip.to_string(),
        port: port.parse().unwrap(),
        ipv4: true,
        scope_id: 0,
        flowinfo: 0,
    }
}

fn sample_cache() -> CacheMap {
    let mut rows = CacheMap::new();
    upsert_snapshot(
        &mut rows,
        "conn-001",
        &addr("127.0.0.1:30000"),
        ServerGresSnapshot {
            hostname: "sample-node".to_string(),
            driver_version: None,
            gres: vec![GresInfo {
                index: 0,
                name: "NVIDIA A100".to_string(),
                temperature_c: None,
                uuid: None,
                memory: GresMemory {
                    used_mb: 1024,
                    total_mb: 81920,
                },
                utilization: GresUtilization {
                    gres_percent: 66,
                    memory_percent: 10,
                },
                processes: vec![GresProcessInfo {
                    pid: 7,
                    uid: 1000,
                    command: Some("python".to_string()),
                    used_memory_mb: 512,
                }],
            }],
        },
        Some(123),
        1_000,
    );
    rows
}

fn state(cache: CacheMap) -> LocalApiState {
    LocalApiState::new(cache, 40, "udp".to_string(), 2, true)
}

fn parse(_: &str) -> Result<QueryRequest, String> {
    Ok(QueryRequest { filter: None, user: None })
}

fn reply(state: &LocalApiState, cmd: &str) -> String {
    match state.handle_command(cmd, &parse) {
        CommandStep::Reply(text) => text,
        other => panic!("unexpected step: {other:?}"),
    }
}

fn query(state: &LocalApiState) -> QueryResponse {
    match state.handle_command("QUERY {}", &parse) {
        CommandStep::Query(request) => {
            assert_eq!(request, QueryRequest { filter: None, user: None })
        }
        other => panic!("unexpected step: {other:?}"),
    }
    let filter = NodeFilter::parse(None, |_: &str| AddrPattern::NotAnAddress);
    state.query_response(&filter, None, &HashMap::new(), 1_010)
}

#[test]
fn query_response_includes_snapshot_node() {
    let response = query(&state(sample_cache()));
    assert_eq!(response.meta.status, "ok");
    assert_eq!(response.nodes[0].hostname, "sample-node");
    assert_eq!(response.nodes[0].gpus[0].util, 66);
    assert_eq!(response.nodes[0].gpus[0].processes.as_ref().unwrap()[0].uid, 1000);
}

#[test]
fn query_response_empty_cache_keeps_json_schema() {
    let response = query(&state(CacheMap::new()));
    assert_eq!(response.meta.status, "empty");
    assert_eq!(response.meta.node_count, 0);
    assert_eq!(response.nodes.len(), 0);
}

#[test]
fn list_response_includes_snapshot_node() {
    let response = reply(&state(sample_cache()), "LIST");
    assert!(response.contains("conn-001 sample-node 127.0.0.1:30000 "));
}

#[test]
fn test_endpoint_reports_gres_schema() {
    let response = reply(&state(sample_cache()), "TEST_GRES_SCHEMA");
    assert_eq!(response, "OK schema=gres\n");
}

#[test]
fn test_endpoint_lists_cache_keys() {
    let response = reply(&state(sample_cache()), "TEST_CACHE_KEYS");
    assert_eq!(response, "127.0.0.1-30000\n");
}

#[test]
fn query_refreshes_stale_cache_through_connection_trait() {
    let addr = addr("127.0.0.1:39001");
    let mut cache = CacheMap::new();
    cache.insert(
        "127.0.0.1-39001",
        ConnectionCacheEntry {
            connection_id: "conn-001".to_string(),
            hostname: "mock-node".to_string(),
            num: 0,
            server_gres: Vec::new(),
            record_timestamp: 0,
            addr: addr.clone(),
            last_snapshot: None,
            last_error: None,
            last_query_latency_us: None,
        },
    );
    let mut state = state(cache);
    assert_eq!(state.begin_connect(&addr), ConnectStep::Connect);
    let peer = Peer { hostname: "mock-node".to_string(), gres_num: 4 };
    assert_eq!(
        state.finish_connect(1, &addr, Some(peer), 1_000),
        ConnectOutcome::Connected
    );
    let snapshot = ServerGresSnapshot {
        hostname: "mock-node".to_string(),
        driver_version: Some("test-driver".to_string()),
        gres: (0..4)
            .map(|index| GresInfo {
                index,
                name: format!("NVIDIA Test GPU {index}"),
                temperature_c: Some(30 + index as u32),
                uuid: Some(format!("GRES-MOCK-{index}")),
                memory: GresMemory {
                    used_mb: 1024 + index as u64,
                    total_mb: 24 * 1024,
                },
                utilization: GresUtilization {
                    gres_percent: 50 + index,
                    memory_percent: 10,
                },
                processes: Vec::new(),
            })
            .collect(),
    };

    let mut refresh = Refresh::start(&state, 1_000);
    assert!(matches!(refresh.next(&state), RefreshAction::Query));
    assert_eq!(refresh.target().expect("target").connection_id, "conn-001");
    refresh.finish(&mut state, Ok(snapshot), 77, 1_001);
    assert!(matches!(refresh.next(&state), RefreshAction::Done));

    let response = query(&state);
    assert_eq!(response.nodes[0].hostname, "mock-node");
    assert_eq!(response.nodes[0].num, 4);
    assert_eq!(response.nodes[0].gpus.len(), 4);
    assert_eq!(response.nodes[0].gpus[3].mem_total_mb, 24 * 1024);
    assert_eq!(response.nodes[0].delay_us, Some(77));
}

#[test]
fn fresh_rows_are_not_refreshed() {
    let state = state(sample_cache());
    assert!(state.stale_targets(1_040).is_empty());
    let targets = state.stale_targets(1_041);
    assert_eq!(targets.len(), 1);
    assert!(targets[0].had_snapshot);
}

#[test]
fn target_without_a_connection_gets_one_chance() {
    let mut state = state(sample_cache());
    let mut refresh = Refresh::start(&state, 5_000);
    match refresh.next(&state) {
        RefreshAction::Connect { index } => assert_eq!(index, 2),
        other => panic!("unexpected action: {other:?}"),
    }
    match refresh.next(&state) {
        RefreshAction::Fail(e) => assert_eq!(e, "no udp connection for 127.0.0.1:30000"),
        other => panic!("unexpected action: {other:?}"),
    }
    let at = addr("127.0.0.1:30000");
    state.begin_connect(&at);
    let peer = Peer { hostname: "sample-node".to_string(), gres_num: 1 };
    state.finish_connect(2, &at, Some(peer), 5_001);
    assert!(matches!(refresh.next(&state), RefreshAction::Query));
    refresh.finish(&mut state, Err("timeout".to_string()), 0, 5_002);
    assert!(!state.is_connected(&at));
    let row = state.rows().get("127.0.0.1-30000").expect("row");
    assert_eq!(row.last_error.as_deref(), Some("timeout"));
    assert_eq!(row.connection_id, "conn-001");
    assert_eq!(state.stale_targets(5_002).len(), 1);
    assert_eq!(state.begin_connect(&at), ConnectStep::Connect);
}

#[test]
fn pool_keeps_hosts_apart_and_its_limit() {
    let mut state = state(CacheMap::new());
    let first = addr("10.0.0.1:1");
    let second = addr("10.0.0.2:1");
    let third = addr("10.0.0.3:1");
    let fourth = addr("10.0.0.4:1");
    for at in [&first, &second, &third, &fourth] {
        assert_eq!(state.begin_connect(at), ConnectStep::Connect);
    }
    assert_eq!(state.begin_connect(&first), ConnectStep::InProgress);
    let peer = |host: &str| Some(Peer { hostname: host.to_string(), gres_num: 1 });
    let outcome = state.finish_connect(1, &first, peer("a"), 10);
    assert_eq!(outcome, ConnectOutcome::Connected);
    assert_eq!(outcome.disconnect_reason(), None);
    let outcome = state.finish_connect(1, &first, peer("a"), 10);
    assert_eq!(outcome.disconnect_reason(), Some("client duplicate session"));
    let outcome = state.finish_connect(2, &second, peer("a"), 10);
    assert_eq!(outcome.disconnect_reason(), Some("client duplicate hostname"));
    assert_eq!(state.finish_connect(3, &third, None, 10), ConnectOutcome::Failed);
    assert_eq!(state.finish_connect(3, &third, peer("c"), 10), ConnectOutcome::Connected);
    let outcome = state.finish_connect(4, &fourth, peer("d"), 10);
    assert_eq!(outcome.disconnect_reason(), Some("client max connections reached"));
    assert_eq!(state.begin_connect(&fourth), ConnectStep::PoolFull);
    assert_eq!(state.begin_connect(&first), ConnectStep::Connected);
    assert_eq!(state.connected(), vec!["10.0.0.1:1", "10.0.0.3:1"]);
    assert_eq!(state.rows().get("10.0.0.3-1").expect("row").connection_id, "conn-003");

    state.heartbeat_failed(&third, "c", "gone", 20);
    assert!(!state.is_connected(&third));
    let row = state.rows().get("10.0.0.3-1").expect("row");
    assert_eq!(row.connection_id, "conn-003");
    assert_eq!(row.last_error.as_deref(), Some("gone"));
    state.heartbeat_failed(&fourth, "d", "gone", 20);
    assert_eq!(state.rows().get("10.0.0.4-1").expect("row").connection_id, "conn-unknown");
}

#[test]
fn placeholder_keeps_what_a_row_held() {
    let mut state = state(sample_cache());
    let at = addr("127.0.0.1:30000");
    state.begin_connect(&at);
    let peer = Peer { hostname: "renamed".to_string(), gres_num: 3 };
    state.finish_connect(7, &at, Some(peer), 9_000);
    let row = state.rows().get("127.0.0.1-30000").expect("row");
    assert_eq!(row.connection_id, "conn-007");
    assert_eq!(row.hostname, "renamed");
    assert_eq!(row.num, 3);
    assert_eq!(row.record_timestamp, 1_000);
    assert!(row.last_snapshot.is_some());
}

#[test]
fn nodes_are_looked_for_only_without_rows() {
    let mut state = state(CacheMap::new());
    assert!(state.needs_nodes());
    let node = |host: &str, at: &str| DiscoveredNode {
        hostname: host.to_string(),
        addr: addr(at),
        ts_ms: 4,
    };
    state.populate(&vec![node("b", "10.0.0.2:1")], &vec![node("a", "10.0.0.1:1")]);
    assert!(!state.needs_nodes());
    assert_eq!(reply(&state, "LIST"), "conn-001 a 10.0.0.1:1 4\nconn-002 b 10.0.0.2:1 4\n");
    assert_eq!(reply(&state, "TEST_CACHE_KEYS"), "10.0.0.1-1,10.0.0.2-1\n");
    state.populate(&vec![node("c", "10.0.0.3:1")], &Vec::new());
    assert_eq!(state.row_count(), 2);
    state.add_discovered_nodes(&vec![node("c", "10.0.0.3:1")]);
    assert_eq!(state.row_count(), 3);
}

#[test]
fn other_commands_are_refused() {
    assert_eq!(
        reply(&state(CacheMap::new()), "PING"),
        "ERR unsupported command: PING\n"
    );
    let plain = LocalApiState::new(CacheMap::new(), 40, "tcp".to_string(), 2, false);
    assert_eq!(
        reply(&plain, "TEST_CACHE_KEYS"),
        "ERR unsupported command: TEST_CACHE_KEYS\n"
    );
    assert_eq!(plain.protocol(), "tcp");
    let odd = LocalApiState::new(CacheMap::new(), 40, "carrier pigeon".to_string(), 2, false);
    assert_eq!(odd.protocol(), "udp");
    let fails = |_: &str| -> Result<QueryRequest, String> { Err("bad".to_string()) };
    match plain.handle_command("QUERY x", &fails) {
        CommandStep::Failed(e) => assert_eq!(e, "invalid QUERY payload: bad"),
        other => panic!("unexpected step: {other:?}"),
    }
    assert!(matches!(plain.handle_command("QUERY", &fails), CommandStep::Query(_)));
}

#[test]
fn socket_path_is_chosen_in_order() {
    assert_eq!(uds_path_from_config_or_env(Some(" /e "), Some("/c")), "/e");
    assert_eq!(uds_path_from_config_or_env(Some(" "), Some("/c")), "/c");
    assert_eq!(uds_path_from_config_or_env(None, None), DEFAULT_BACKEND_SOCKET);
    assert!(wants_heartbeat(true, 5));
    assert!(!wants_heartbeat(true, 0));
}

#[test]
fn rows_stay_fresh_under_the_longest_times_to_live() {
    for ttl in [i64::MAX as u64, i64::MAX as u64 + 1, u64::MAX] {
        let state = LocalApiState::new(sample_cache(), ttl, "udp".to_string(), 2, true);
        assert!(state.stale_targets(i64::MAX).is_empty(), "ttl {ttl}");
    }
}
