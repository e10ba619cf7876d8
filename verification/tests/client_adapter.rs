//! What frontends are shown.

use clustat::client::adapter::{
    apply_user_filter, build_query_response, gpu_views_from_snapshot, node_view_from_entry,
    node_view_from_snapshot, parse_legacy_gpu_views, parse_payload_view, parse_query_request,
    uids_in, username_for_uid, username_from_passwd, NodeView, QueryMeta, QueryRequest,
};
use clustat::client::base64::decode_base64;
use clustat::client::cache::{mark_stale, upsert_snapshot, CacheMap, ConnectionCacheEntry};
use clustat::client::filter::NodeFilter;
use clustat::common::net::{AddrPattern, NodeAddr};
use clustat::common::payload::encode_snapshot_payload;
use clustat::common::snapshot::{
    GpuInfo, GpuMemory, GpuProcessInfo, GpuUtilization, ServerGpuSnapshot,
};
use std::collections::HashMap;

fn addr(raw: &str) -> NodeAddr {
    let (ip, port) = raw.rsplit_once(':').unwrap();
    NodeAddr {
        ip: ip.to_string(),
        port: port.parse().unwrap(),
        ipv4: true,
        scope_id: 0,
        flowinfo: 0,
    }
}

fn no_filter() -> NodeFilter {
    NodeFilter::parse(None, |_: &str| AddrPattern::NotAnAddress)
}

fn names() -> HashMap<u32, String> {
    let mut names = HashMap::new();
    names.insert(1000, "alice".to_string());
    names
}

fn snapshot() -> ServerGpuSnapshot {
    ServerGpuSnapshot {
        hostname: "node-a".to_string(),
        driver_version: None,
        gres: vec![GpuInfo {
            index: 0,
            name: "NVIDIA A100".to_string(),
            temperature_c: None,
            uuid: Some("GPU-123".to_string()),
            memory: GpuMemory {
                used_mb: 1024,
                total_mb: 81920,
            },
            utilization: GpuUtilization {
                gres_percent: 75,
                memory_percent: 20,
            },
            processes: vec![
                GpuProcessInfo {
                    pid: 1234,
                    uid: 1000,
                    command: Some("python train.py".to_string()),
                    used_memory_mb: 512,
                },
                GpuProcessInfo {
                    pid: 5678,
                    uid: 1001,
                    command: Some("python eval.py".to_string()),
                    used_memory_mb: 256,
                },
            ],
        }],
    }
}

fn snapshot_payload() -> Vec<u8> {
    let snapshot = snapshot();
    encode_snapshot_payload(&snapshot).expect("encode payload")
}

const TABLE: &[u8; 64] = b"ABCDEFGHIJKLMNOPQRSTUVWXYZabcdefghijklmnopqrstuvwxyz0123456789+/";

fn encode_base64_for_test(bytes: &[u8]) -> String {
    let mut out = String::new();
    for chunk in bytes.chunks(3) {
        let b0 = chunk[0];
        let b1 = *chunk.get(1).unwrap_or(&0);
        let b2 = *chunk.get(2).unwrap_or(&0);
        out.push(TABLE[(b0 >> 2) as usize] as char);
        out.push(TABLE[(((b0 & 0b0000_0011) << 4) | (b1 >> 4)) as usize] as char);
        if chunk.len() > 1 {
            out.push(TABLE[(((b1 & 0b0000_1111) << 2) | (b2 >> 6)) as usize] as char);
        } else {
            out.push('=');
        }
        if chunk.len() > 2 {
            out.push(TABLE[(b2 & 0b0011_1111) as usize] as char);
        } else {
            out.push('=');
        }
    }
    out
}

#[test]
fn empty_query_response_schema_is_stable() {
    let rows = CacheMap::new();
    let response = build_query_response(&rows, &no_filter(), None, &names(), 1_700_000_000_000);
    assert_eq!(response.meta.status, "empty");
    assert_eq!(response.meta.node_count, 0);
    assert!(response.meta.timestamp_ms > 0);
    assert_eq!(response.nodes.len(), 0);
}

#[test]
fn multi_node_query_response_is_sorted_and_counts_nodes() {
    let mut rows = CacheMap::new();
    let addr_b = addr("127.0.0.1:39401");
    let addr_a = addr("127.0.0.1:39400");
    let mut snapshot_b = snapshot();
    snapshot_b.hostname = "node-b".to_string();
    snapshot_b.gres[0].processes[0].uid = 1001;
    let mut snapshot_a = snapshot();
    snapshot_a.hostname = "node-a".to_string();
    snapshot_a.gres[0].processes[0].uid = 1000;

    upsert_snapshot(&mut rows, "conn-002", &addr_b, snapshot_b, None, 5);
    upsert_snapshot(&mut rows, "conn-001", &addr_a, snapshot_a, Some(321), 5);

    let response = build_query_response(&rows, &no_filter(), None, &names(), 9);
    assert_eq!(response.meta.status, "ok");
    assert_eq!(response.meta.node_count, 2);
    assert_eq!(response.nodes[0].hostname, "node-a");
    assert_eq!(response.nodes[1].hostname, "node-b");
    assert_eq!(
        response.nodes[0].gpus[0].processes.as_ref().unwrap()[0].uid,
        1000
    );
    assert_eq!(
        response.nodes[1].gpus[0].processes.as_ref().unwrap()[0].uid,
        1001
    );
    let mut uids = uids_in(&rows);
    uids.sort();
    assert_eq!(uids, vec![1000, 1001, 1001, 1001]);
}

#[test]
fn common_snapshot_maps_to_gpu_view_with_processes() {
    let views = gpu_views_from_snapshot(&snapshot(), &names());
    assert_eq!(views.len(), 1);
    assert_eq!(views[0].util, 75);
    assert_eq!(views[0].mem_total_mb, 81920);
    let processes = views[0].processes.as_ref().expect("processes");
    assert_eq!(processes[0].uid, 1000);
    assert_eq!(processes[0].used_memory_mb, 512);
    assert_eq!(processes[0].username, "alice");
    assert_eq!(processes[1].username, "1001");
}

#[test]
fn common_snapshot_builds_node_view() {
    let addr = addr("10.0.0.1:30000");
    let node = node_view_from_snapshot(
        "conn-001",
        &addr,
        1_700_000_000_123,
        &snapshot(),
        Some(321),
        &names(),
    );
    assert_eq!(node.connection_id, "conn-001");
    assert_eq!(node.hostname, "node-a");
    assert_eq!(node.timestamp_ms, 1_700_000_000_123);
    assert_eq!(node.num, 1);
    assert!(!node.stale);
    assert_eq!(node.delay_us, Some(321));
    assert_eq!(node.gpus[0].processes.as_ref().unwrap()[0].uid, 1000);
}

#[test]
fn common_snapshot_payload_decodes_from_payload_array() {
    let payload = snapshot_payload();
    let numbers: Vec<String> = payload.iter().map(|b| b.to_string()).collect();
    let body = format!(r#"{{"ok":true,"payload":[{}]}}"#, numbers.join(","));
    let (timestamp_ms, views) =
        parse_payload_view(body.as_bytes(), &names(), 77).expect("decode payload view");
    assert!(timestamp_ms > 0);
    assert_eq!(views[0].util, 75);
    assert_eq!(views[0].processes.as_ref().unwrap()[0].uid, 1000);
}

#[test]
fn common_snapshot_payload_decodes_from_payload_b64() {
    let encoded = encode_base64_for_test(&snapshot_payload());
    let body = format!(r#"{{"ok":true,"payload_b64":"{}"}}"#, encoded);
    let (_, views) =
        parse_payload_view(body.as_bytes(), &names(), 77).expect("decode b64 payload view");
    assert_eq!(views[0].mem_used_mb, 1024);
}

#[test]
fn user_filter_trims_processes_without_dropping_gpu_rows() {
    let mut node = NodeView {
        connection_id: "conn-001".to_string(),
        hostname: "node-a".to_string(),
        addr: "10.0.0.1:30000".to_string(),
        timestamp_ms: 1,
        driver_version: None,
        num: 1,
        stale: false,
        error: None,
        delay_us: None,
        gpus: gpu_views_from_snapshot(&snapshot(), &names()),
    };

    let user = username_for_uid(1000, &names());
    apply_user_filter(&mut node, Some(&user));
    let processes = node.gpus[0].processes.as_ref().unwrap();
    assert_eq!(processes.len(), 1);
    assert_eq!(processes[0].uid, 1000);
}

#[test]
fn round1_server_json_payload_maps_to_gpu_view() {
    let views = parse_legacy_gpu_views(br#"{"gpu_num":2,"avg_utilization":42}"#);
    assert_eq!(views.len(), 2);
    assert_eq!(views[1].util, 42);
}

#[test]
fn round1_csv_payload_still_maps_to_gpu_view() {
    let views = parse_legacy_gpu_views(b"0,35,2048,8192;1,76,6144,8192");
    assert_eq!(views.len(), 2);
    assert_eq!(views[0].mem_used_mb, 2048);
    assert_eq!(views[1].util, 76);
}

#[test]
fn malformed_csv_items_are_skipped() {
    let views = parse_legacy_gpu_views(b"0,35,2048,8192;x,1,2,3;1,76");
    assert_eq!(views.len(), 1);
    assert_eq!(views[0].index, 0);
    assert!(parse_legacy_gpu_views(&[0xff, 0xfe]).is_empty());
}

#[test]
fn names_of_users_are_found() {
    assert_eq!(username_for_uid(u32::MAX, &names()), "?");
    assert_eq!(username_for_uid(1000, &names()), "alice");
    assert_eq!(username_for_uid(4321, &names()), "4321");
    assert_eq!(
        username_from_passwd("bob:x:1001:1001::/home/bob:/bin/sh\n"),
        Some("bob".to_string())
    );
    assert_eq!(username_from_passwd(" :x:1"), None);
}

#[test]
fn base64_reads_back_what_was_written() {
    for len in 0..20u8 {
        let bytes: Vec<u8> = (0..len).map(|i| i.wrapping_mul(97)).collect();
        assert_eq!(decode_base64(encode_base64_for_test(&bytes).as_bytes()), Some(bytes));
    }
    assert_eq!(decode_base64(b"TWFu"), Some(b"Man".to_vec()));
    assert_eq!(decode_base64(b"T*Fu"), None);
}

#[test]
fn failed_rows_are_shown_as_stale() {
    let mut rows = CacheMap::new();
    mark_stale(&mut rows, "conn-001", &addr("10.0.0.1:1"), "node-a", "timeout", 5);
    let node = node_view_from_entry(rows.get("10.0.0.1-1").expect("row"), &names(), 9);
    assert!(node.stale);
    assert_eq!(node.error.as_deref(), Some("timeout"));
    assert_eq!(node.num, 0);
    assert!(node.gpus.is_empty());
}

#[test]
fn query_requests_are_read() {
    let parse = |s: &str| -> Result<QueryRequest, String> {
        if s == "{}" {
            Ok(QueryRequest { filter: None, user: Some("alice".to_string()) })
        } else {
            Err("bad".to_string())
        }
    };
    assert_eq!(
        parse_query_request("", &parse),
        Ok(QueryRequest { filter: None, user: None })
    );
    assert_eq!(
        parse_query_request("{}", &parse),
        Ok(QueryRequest { filter: None, user: Some("alice".to_string()) })
    );
    assert_eq!(
        parse_query_request("x", &parse),
        Err("invalid QUERY payload: bad".to_string())
    );
    assert_eq!(QueryMeta::default().status, "unknown");
}

#[test]
fn owners_are_found_in_answers_of_older_nodes() {
    let body = format!(
        r#"{{"ok":true,"payload_b64":"{}"}}"#,
        encode_base64_for_test(&snapshot_payload())
    );
    let mut rows = CacheMap::new();
    rows.insert(
        "10.0.0.9-30000",
        ConnectionCacheEntry {
            connection_id: "conn-009".to_string(),
            hostname: "node-i".to_string(),
            num: 1,
            server_gres: body.into_bytes(),
            record_timestamp: 5,
            addr: addr("10.0.0.9:30000"),
            last_snapshot: None,
            last_error: None,
            last_query_latency_us: None,
        },
    );
    assert_eq!(uids_in(&rows), vec![1000, 1001]);
}
