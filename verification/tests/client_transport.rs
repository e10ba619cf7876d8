//! Frames of the client, and what it makes of replies.

use clustat::client::config::{check_config, config_path, kcp_enabled_requested};
use clustat::client::kcp_client::{addr_seed, changed_gres_num, first_conv, next_conv};
use clustat::client::reply::{
    control_frame, parse_handshake_reply, parse_kcp_query_reply, parse_query_reply, stream_reply,
    ClientError, DecodeFault, StreamReply,
};
use clustat::client::transport::{
    build_data_payload_frame, build_disconnect_frame, build_handshake_request_frame,
    build_heartbeat_frame, build_query_request_frame, build_query_response_frame,
    check_query_response, encode_bytes_frame, encode_json_frame, parse_data_payload_frame,
    parse_disconnect_reason_frame, parse_handshake_info_frame, parse_metadata_payload_frame,
    parse_query_response_error_frame, parse_runtime_payload_frame, split_frame, TransportError,
};
use clustat::client::udp_client::{
    datagrams_for_frame, empty_query_datagram, next_request_id, reassembly_timeout, wait_timeout,
    UdpReceiver,
};
use clustat::common::config::{
    Config, ConnectingConfig, LogConfig, RuntimeConfig, ServicesConfig,
};
use clustat::common::error::ErrorCode;
use clustat::common::frame::{FrameType, PROTOCOL_VERSION};
use clustat::common::message::{
    HandshakeInfo, QueryResponse as WireQueryResponse, ResponseStatus,
};
use clustat::common::payload::{
    encode_metadata_payload, encode_runtime_payload, encode_snapshot_payload,
};
use clustat::common::snapshot::{
    GresInfo, GresMemory, GresProcessInfo, GresUtilization, HostMetadata, RuntimeSnapshot,
    ServerGresSnapshot,
};
use clustat::common::udp::{decode_udp_single_chunk, UdpChunkError};
use clustat::server::session::{tcp_step, SessionStep};
use clustat::server::transport::Request;

fn snapshot() -> ServerGresSnapshot {
    ServerGresSnapshot {
        hostname: "node-a".to_string(),
        driver_version: None,
        gres: vec![GresInfo {
            index: 0,
            name: "NVIDIA A100".to_string(),
            temperature_c: None,
            uuid: None,
            memory: GresMemory {
                used_mb: 1024,
                total_mb: 81920,
            },
            utilization: GresUtilization {
                gres_percent: 88,
                memory_percent: 10,
            },
            processes: vec![GresProcessInfo {
                pid: 42,
                uid: 1000,
                command: Some("python".to_string()),
                used_memory_mb: 512,
            }],
        }],
    }
}

fn without_commands(mut snapshot: ServerGresSnapshot) -> ServerGresSnapshot {
    for gres in &mut snapshot.gres {
        for process in &mut gres.processes {
            process.command = None;
        }
    }
    snapshot
}

fn parse_info(payload: &[u8]) -> Result<HandshakeInfo, String> {
    let value: serde_json::Value = serde_json::from_slice(payload).map_err(|e| e.to_string())?;
    Ok(HandshakeInfo {
        version: value["version"].as_u64().ok_or("version")? as u8,
        hostname: value["hostname"].as_str().ok_or("hostname")?.to_string(),
        gpu_num: value["gpu_num"].as_u64().ok_or("gpu_num")? as u8,
        payload_len: value["payload_len"].as_u64().ok_or("payload_len")? as u16,
    })
}

fn parse_response(payload: &[u8]) -> Result<WireQueryResponse, String> {
    let value: serde_json::Value = serde_json::from_slice(payload).map_err(|e| e.to_string())?;
    Ok(WireQueryResponse {
        version: value["version"].as_u64().ok_or("version")? as u8,
        request_id: value["request_id"].as_u64().ok_or("request_id")?,
        status: if value["status"] == "Ok" {
            ResponseStatus::Success
        } else {
            ResponseStatus::Error
        },
        error: if value["error"] == "QueryTimeout" {
            Some(ErrorCode::QueryTimeout)
        } else {
            None
        },
    })
}

#[test]
fn builds_handshake_request_frame() {
    let frame = build_handshake_request_frame(7).expect("frame");
    let (header, payload) = split_frame(&frame, FrameType::HandshakeRequest).expect("split");
    assert_eq!(header.request_id, 7);
    let req: serde_json::Value = serde_json::from_slice(payload).expect("handshake json");
    assert_eq!(req["version"], PROTOCOL_VERSION);
}

#[test]
fn parses_handshake_info_frame() {
    let info = HandshakeInfo::current("node-a".to_string(), 2, 4096);
    let json = format!(
        r#"{{"version":{},"hostname":"{}","gpu_num":{},"payload_len":{}}}"#,
        info.version, info.hostname, info.gpu_num, info.payload_len
    );
    let frame = encode_json_frame(FrameType::HandshakeInfo, 9, &json).expect("frame");
    let parsed = parse_handshake_info_frame(&frame, &parse_info).expect("parse handshake");
    assert_eq!(parsed.hostname, "node-a");
    assert_eq!(parsed.gpu_num, 2);
    assert_eq!(parsed.payload_len, 4096);
}

#[test]
fn builds_query_request_frame() {
    let frame = build_query_request_frame(11).expect("frame");
    let (header, payload) = split_frame(&frame, FrameType::QueryRequest).expect("split");
    assert_eq!(header.request_id, 11);
    let req: serde_json::Value = serde_json::from_slice(payload).expect("query json");
    assert_eq!(req["request_id"], 11);
    assert_eq!(req["version"], PROTOCOL_VERSION);
}

#[test]
fn parses_data_payload_frame_into_snapshot() {
    let payload = encode_snapshot_payload(&snapshot()).expect("payload");
    let frame = build_data_payload_frame(12, &payload).expect("frame");
    let parsed = parse_data_payload_frame(&frame).expect("snapshot");
    assert_eq!(parsed.hostname, "node-a");
    assert_eq!(parsed.gres[0].utilization.gres_percent, 88);
}

#[test]
fn parses_query_response_error_frame() {
    let response = WireQueryResponse::error(13, ErrorCode::QueryTimeout);
    let frame = build_query_response_frame(13, &response).expect("frame");
    let error = clustat::client::transport::parse_query_response_error_frame(
        &frame,
        &parse_response,
    )
    .expect("query response");
    assert_eq!(error, Some(ErrorCode::QueryTimeout));
}

#[test]
fn rejects_unexpected_frame_type() {
    let frame = build_query_request_frame(14).expect("frame");
    let err = parse_data_payload_frame(&frame).unwrap_err();
    assert_eq!(
        err,
        TransportError::UnexpectedFrameType {
            expected: FrameType::DataPayload,
            got: FrameType::QueryRequest,
        }
    );
}

#[test]
fn other_versions_are_refused() {
    let json = r#"{"version":9,"hostname":"a","gpu_num":1,"payload_len":1}"#;
    let frame = encode_json_frame(FrameType::HandshakeInfo, 9, json).expect("frame");
    assert_eq!(
        parse_handshake_info_frame(&frame, &parse_info),
        Err(TransportError::QueryError(Some(ErrorCode::ProtocolVersionMismatch)))
    );
    let mut response = WireQueryResponse::ok(1);
    assert_eq!(check_query_response(Ok(response.clone())), Ok(None));
    response.version = 9;
    assert_eq!(
        check_query_response(Ok(response)),
        Err(TransportError::QueryError(Some(ErrorCode::ProtocolVersionMismatch)))
    );
    assert_eq!(
        check_query_response(Err("eof".to_string())),
        Err(TransportError::Json("decode QueryResponse failed: eof".to_string()))
    );
    let frame = encode_json_frame(FrameType::HandshakeInfo, 9, "{}").expect("frame");
    assert_eq!(
        parse_handshake_info_frame(&frame, &parse_info),
        Err(TransportError::Json("decode HandshakeInfo failed: version".to_string()))
    );
}

#[test]
fn payloads_that_are_no_archive_are_refused() {
    let frame = encode_bytes_frame(FrameType::MetadataPayload, 1, b"").expect("frame");
    assert_eq!(
        parse_metadata_payload_frame(&frame),
        Err(TransportError::Payload("decode metadata payload failed: Empty".to_string()))
    );
    let frame = encode_bytes_frame(FrameType::RuntimePayload, 1, b"abc").expect("frame");
    match parse_runtime_payload_frame(&frame) {
        Err(TransportError::Payload(text)) => {
            let rest = text
                .strip_prefix("decode runtime payload failed: DeserializeFailed(\"")
                .expect("fault and quote");
            assert!(rest.ends_with("\")"));
        }
        other => panic!("unexpected outcome: {other:?}"),
    }
    assert!(matches!(parse_data_payload_frame(b"short"), Err(TransportError::Frame(_))));
}

#[test]
fn node_understands_the_frames_of_the_client() {
    let handshake = build_handshake_request_frame(1).expect("frame");
    assert!(matches!(tcp_step(&handshake), SessionStep::ParseHandshake(1, _)));
    let query = build_query_request_frame(2).expect("frame");
    assert!(matches!(tcp_step(&query), SessionStep::ParseQuery(_)));
    let empty = encode_bytes_frame(FrameType::QueryRequest, 3, b"").expect("frame");
    assert!(matches!(tcp_step(&empty), SessionStep::Answer(Request::Runtime(3))));
    let bye = build_disconnect_frame(0, " client done ").expect("frame");
    match tcp_step(&bye) {
        SessionStep::Disconnected(reason) => assert_eq!(reason, "client done"),
        other => panic!("unexpected step: {other:?}"),
    }
    assert_eq!(parse_disconnect_reason_frame(&bye), Ok("client done".to_string()));
}

#[test]
fn replies_rebuild_the_snapshot() {
    let snapshot = snapshot();
    let metadata = HostMetadata::from_snapshot(&snapshot);
    let runtime = RuntimeSnapshot::from_snapshot(&snapshot);
    let frame = encode_bytes_frame(
        FrameType::MetadataPayload,
        1,
        &encode_metadata_payload(&metadata).expect("metadata"),
    )
    .expect("frame");
    assert_eq!(parse_handshake_reply(&frame, &parse_response), Ok(metadata.clone()));

    let frame = encode_bytes_frame(
        FrameType::RuntimePayload,
        2,
        &encode_runtime_payload(&runtime).expect("runtime"),
    )
    .expect("frame");
    let expected = without_commands(snapshot.clone());
    assert_eq!(parse_query_reply(&frame, &metadata, &parse_response), Ok(expected.clone()));
    match stream_reply(&frame, &metadata, &parse_response) {
        StreamReply::Snapshot(s) => assert_eq!(s, expected),
        other => panic!("unexpected reply: {other:?}"),
    }

    let mut other = metadata.clone();
    other.hostname = "renamed".to_string();
    match stream_reply(&frame, &other, &parse_response) {
        StreamReply::RefreshMetadata(r) => assert_eq!(r, runtime),
        other => panic!("unexpected reply: {other:?}"),
    }

    let payload = encode_snapshot_payload(&snapshot).expect("payload");
    let frame = build_data_payload_frame(12, &payload).expect("frame");
    assert_eq!(parse_kcp_query_reply(&frame, &parse_response), Ok(snapshot));
}

#[test]
fn replies_with_errors_are_explained() {
    let metadata = HostMetadata::from_snapshot(&snapshot());
    let response = WireQueryResponse::error(13, ErrorCode::QueryTimeout);
    let frame = build_query_response_frame(13, &response).expect("frame");
    let expected = ClientError::Server(ErrorCode::QueryTimeout.message().to_string());
    assert_eq!(parse_handshake_reply(&frame, &parse_response), Err(expected.clone()));
    assert_eq!(parse_query_reply(&frame, &metadata, &parse_response), Err(expected));

    let frame = build_query_response_frame(13, &WireQueryResponse::ok(13)).expect("frame");
    assert_eq!(
        parse_query_reply(&frame, &metadata, &parse_response),
        Err(ClientError::Server(
            "server returned empty QueryResponse instead of RuntimePayload".to_string()
        ))
    );
    assert_eq!(
        parse_kcp_query_reply(&frame, &parse_response),
        Err(ClientError::Server(
            "server returned empty QueryResponse instead of DataPayload".to_string()
        ))
    );

    let frame = build_disconnect_frame(0, "maintenance").expect("frame");
    assert_eq!(
        parse_query_reply(&frame, &metadata, &parse_response),
        Err(ClientError::Server("peer disconnected: maintenance".to_string()))
    );
    assert_eq!(
        parse_handshake_reply(&frame, &parse_response),
        Err(ClientError::Transport(TransportError::UnexpectedFrameType {
            expected: FrameType::MetadataPayload,
            got: FrameType::Disconnect,
        }))
    );
    let frame = build_disconnect_frame(0, " ").expect("frame");
    assert_eq!(
        control_frame(&frame),
        Err(ClientError::Server("peer disconnected".to_string()))
    );
    assert_eq!(control_frame(&build_heartbeat_frame(0).expect("frame")), Ok(()));
    assert!(matches!(
        control_frame(b"x"),
        Err(ClientError::Transport(TransportError::Frame(_)))
    ));
    let frame = build_query_response_frame(13, &WireQueryResponse::ok(13)).expect("frame");
    assert_eq!(parse_query_response_error_frame(&frame, &parse_response), Ok(None));
}

#[test]
fn receiver_waits_for_its_reply() {
    let reply = encode_bytes_frame(FrameType::RuntimePayload, 7, &[1u8; 1900]).expect("frame");
    let other = encode_bytes_frame(FrameType::RuntimePayload, 8, b"x").expect("frame");
    let chunks = datagrams_for_frame(&reply, 512).expect("chunks");
    assert!(chunks.len() > 1);
    let single = datagrams_for_frame(&other, 512).expect("datagram");
    assert_eq!(single.len(), 1);

    let mut receiver = UdpReceiver::new(7, 1_000, 500);
    assert_eq!(receiver.on_datagram(&single[0], 1_000), Ok(None));
    for chunk in chunks.iter().skip(1).rev() {
        assert_eq!(receiver.on_datagram(chunk, 1_001), Ok(None));
        assert_eq!(receiver.on_datagram(chunk, 1_001), Ok(None));
    }
    assert!(receiver.waiting(1_499));
    assert!(!receiver.waiting(1_500));
    assert_eq!(receiver.on_datagram(&chunks[0], 1_002), Ok(Some(reply)));
    assert_eq!(
        receiver.on_datagram(b"junk", 1_002),
        Err(ClientError::Decode(DecodeFault::Chunk(UdpChunkError::ShortDatagram {
            got: 4,
            min: 32,
        })))
    );
}

#[test]
fn receiver_takes_a_reply_in_one_datagram() {
    let reply = encode_bytes_frame(FrameType::RuntimePayload, 7, b"abc").expect("frame");
    let datagram = datagrams_for_frame(&reply, 512).expect("datagram");
    let mut receiver = UdpReceiver::new(7, 0, 500);
    assert_eq!(receiver.on_datagram(&datagram[0], 1), Ok(Some(reply)));
    assert_eq!(
        wait_timeout(),
        ClientError::Io("timeout while waiting for UDP frame".to_string())
    );
    assert_eq!(
        reassembly_timeout(),
        ClientError::Io("timeout while reassembling UDP frame".to_string())
    );
}

#[test]
fn empty_query_is_one_datagram() {
    let datagram = empty_query_datagram(5).expect("datagram");
    let frame = decode_udp_single_chunk(&datagram).expect("decode").expect("frame");
    let (header, payload) = split_frame(&frame, FrameType::QueryRequest).expect("split");
    assert_eq!(header.request_id, 5);
    assert!(payload.is_empty());
    let mut next = u64::MAX;
    assert_eq!(next_request_id(&mut next), u64::MAX);
    assert_eq!(next_request_id(&mut next), 0);
}

#[test]
fn conversation_numbers_skip_zero() {
    assert_eq!(addr_seed(&[10, 0, 0, 1], 0x0102), 0x0a000001 ^ 0x0102);
    let mut octets = [0u8; 16];
    octets[0] = 1;
    octets[7] = 2;
    assert_eq!(addr_seed(&octets, 3), 3 ^ 1 ^ 0x02000000);
    assert_eq!(first_conv(5, 5, 0), 1);
    assert_eq!(first_conv(8, 4, 2), 14);
    let mut next = 0;
    assert_eq!(next_conv(&mut next, u32::MAX), u32::MAX);
    assert_eq!(next_conv(&mut next, 9), 1);
    assert_eq!(next_conv(&mut next, 9), 2);
    assert_eq!(changed_gres_num(0, 1, 2), None);
    assert_eq!(changed_gres_num(9, 2, 2), None);
    assert_eq!(changed_gres_num(9, 2, 300), Some(255));
}

fn client_config() -> Config {
    Config {
        connecting: ConnectingConfig {
            port_range: [30_000, 30_010],
            multicast_addr: "239.0.0.1:4000".to_string(),
            tcp_port: 0,
            udp_port: 0,
            udp_mtu: 0,
            protocol: " UDP ".to_string(),
            heartbeat_interval: 5,
            connection_idle_timeout: 10,
            max_connections: 64,
            discover_wait_secs: 5,
            multicast_retry_limit: 5,
            multicast_outbound_ip: Vec::new(),
        },
        log: LogConfig { max_size: "5mb".to_string() },
        services: ServicesConfig {
            cache_ttl_ms: 40,
            collector_interval_ms: 25,
            latency_display: true,
            uds_path: None,
        },
        runtime: RuntimeConfig::default(),
    }
}

#[test]
fn client_configuration_is_checked() {
    assert_eq!(check_config(&client_config()), Ok(()));
    let mut config = client_config();
    config.connecting.protocol = "KCP".to_string();
    assert_eq!(
        check_config(&config),
        Err("invalid connecting.protocol 'kcp': expected 'udp' or 'tcp'".to_string())
    );
    let mut config = client_config();
    config.connecting.heartbeat_interval = 0;
    assert!(check_config(&config).unwrap_err().contains("heartbeat_interval"));
    let mut config = client_config();
    config.connecting.connection_idle_timeout = 0;
    assert!(check_config(&config).unwrap_err().contains("connection_idle_timeout"));
    let mut config = client_config();
    config.connecting.max_connections = 0;
    assert!(check_config(&config).unwrap_err().contains("max_connections"));
    assert_eq!(config_path(None), "/etc/clustat/client.toml");
    assert_eq!(config_path(Some("/x".to_string())), "/x");
    assert!(kcp_enabled_requested("udp", Some("YES")));
    assert!(!kcp_enabled_requested("kcp", Some("0")));
    assert!(kcp_enabled_requested("Kcp", None));
}

#[test]
fn reason_of_a_disconnect_is_read_back() {
    let frame = build_disconnect_frame(3, "  idle — \u{4e2d}\n").expect("frame");
    assert_eq!(
        parse_disconnect_reason_frame(&frame),
        Ok("idle — \u{4e2d}".to_string())
    );
}
