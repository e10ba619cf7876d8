//! Answering frames and datagrams.

use clustat::common::error::ErrorCode;
use clustat::common::frame::{FrameDecodeError, FrameHeaderError, FrameType, PROTOCOL_VERSION};
use clustat::common::message::{HandshakeRequest, QueryRequest};
use clustat::common::net::NodeAddr;
use clustat::common::payload::{decode_metadata_payload, decode_runtime_payload};
use clustat::common::snapshot::{
    GresInfo, GresMemory, GresProcessInfo, GresUtilization, ServerGresSnapshot,
};
use clustat::common::udp::{decode_udp_single_chunk, encode_udp_chunks, encode_udp_single_chunk};
use clustat::server::cache::{
    encode_collected, make_entry, CacheEntry, ClockReading, GresCache,
};
use clustat::server::collector::{GresCollector, GresNodeSnapshot};
use clustat::server::session::{
    accept_session, disconnect_frame, kcp_step, payload_len_behind, tcp_step, KcpRead, SessionStep,
};
use clustat::server::test_collector::TestGresCollector;
use clustat::server::transport::{
    decode_transport_frame, encode_transport_frame, handshake_request, query_request, reply_frame,
    Hooks, Request, TransportContext, TransportError,
};
use clustat::server::udp_transport::{Step, UdpServer};
use std::cell::Cell;

struct StaticCollector {
    calls: Cell<usize>,
    fail: Option<ErrorCode>,
}

impl StaticCollector {
    fn new() -> Self {
        Self { calls: Cell::new(0), fail: None }
    }

    fn failing(code: ErrorCode) -> Self {
        Self { calls: Cell::new(0), fail: Some(code) }
    }
}

fn snapshot() -> ServerGresSnapshot {
    ServerGresSnapshot {
        hostname: "node-a".to_string(),
        driver_version: None,
        gres: vec![GresInfo {
            index: 0,
            name: "test-gres".to_string(),
            temperature_c: None,
            uuid: Some("GRES-0".to_string()),
            memory: GresMemory {
                used_mb: 1024,
                total_mb: 81920,
            },
            utilization: GresUtilization {
                gres_percent: 75,
                memory_percent: 10,
            },
            processes: vec![GresProcessInfo {
                pid: 42,
                uid: 1000,
                command: Some("python train.py".to_string()),
                used_memory_mb: 512,
            }],
        }],
    }
}

impl GresCollector for StaticCollector {
    fn collect_gres(&self) -> Result<GresNodeSnapshot, ErrorCode> {
        self.calls.set(self.calls.get() + 1);
        if let Some(code) = self.fail {
            return Err(code);
        }
        Ok(GresNodeSnapshot::from_gres_snapshot(snapshot()))
    }
}

fn context<C: GresCollector>(collector: C) -> TransportContext<C> {
    TransportContext::new(collector, GresCache::new(), 1_000)
}

fn clock() -> ClockReading {
    ClockReading { mono_ns: 1_000_000, unix_ms: 1_700_000_000_000 }
}

fn parse_handshake(payload: &[u8]) -> Result<HandshakeRequest, String> {
    let value: serde_json::Value = serde_json::from_slice(payload).map_err(|e| e.to_string())?;
    Ok(HandshakeRequest { version: value["version"].as_u64().ok_or("version")? as u8 })
}

fn parse_query(payload: &[u8]) -> Result<QueryRequest, String> {
    let value: serde_json::Value = serde_json::from_slice(payload).map_err(|e| e.to_string())?;
    Ok(QueryRequest {
        version: value["version"].as_u64().ok_or("version")? as u8,
        request_id: value["request_id"].as_u64().ok_or("request_id")?,
    })
}

fn answer<C: GresCollector>(
    ctx: &mut TransportContext<C>,
    frame: &[u8],
) -> Result<Vec<u8>, TransportError> {
    let hooks = Hooks { clock, parse_handshake, parse_query };
    ctx.handle_frame(frame, &hooks)
}

fn request_frame(frame_type: FrameType, request_id: u64, payload: &[u8]) -> Vec<u8> {
    encode_transport_frame(frame_type, request_id, payload)
}

fn query_payload(request_id: u64) -> Vec<u8> {
    QueryRequest { version: PROTOCOL_VERSION, request_id }.to_json().into_bytes()
}

#[test]
fn kcp_session_malformed_frame_is_rejected_without_panic() {
    let mut context = context(TestGresCollector::new("loopback-node"));

    assert!(answer(&mut context, b"not-a-complete-frame").is_err());
}

#[test]
fn handshake_frame_returns_hostname_gres_num_and_payload_len() {
    let mut ctx = context(StaticCollector::new());
    let request = request_frame(
        FrameType::HandshakeRequest,
        7,
        HandshakeRequest { version: PROTOCOL_VERSION }.to_json().as_bytes(),
    );

    let response = answer(&mut ctx, &request).expect("handle handshake");
    let decoded = decode_transport_frame(&response).expect("decode response");
    assert_eq!(decoded.header.frame_type, FrameType::MetadataPayload);
    assert_eq!(decoded.header.request_id, 7);

    let metadata = decode_metadata_payload(&decoded.payload).expect("metadata payload");
    assert_eq!(metadata.hostname, "node-a");
    assert_eq!(metadata.gres.len(), 1);
}

#[test]
fn query_frame_returns_decodable_snapshot_payload() {
    let mut ctx = context(StaticCollector::new());
    let request = request_frame(FrameType::QueryRequest, 11, &query_payload(99));

    let response = answer(&mut ctx, &request).expect("handle query");
    let decoded = decode_transport_frame(&response).expect("decode response");
    assert_eq!(decoded.header.frame_type, FrameType::RuntimePayload);
    assert_eq!(decoded.header.request_id, 99);

    let runtime = decode_runtime_payload(&decoded.payload).expect("runtime payload");
    assert_eq!(runtime.gres.len(), 1);
    assert_eq!(runtime.gres[0].utilization.gres_percent, 75);
}

#[test]
fn query_frame_with_test_collector_returns_runtime_payload() {
    let mut ctx = context(TestGresCollector::new("node-a"));
    let request = request_frame(FrameType::QueryRequest, 21, &query_payload(101));

    let response = answer(&mut ctx, &request).expect("handle query");
    let decoded = decode_transport_frame(&response).expect("decode response");
    assert_eq!(decoded.header.frame_type, FrameType::RuntimePayload);

    let runtime = decode_runtime_payload(&decoded.payload).expect("runtime payload");
    assert_eq!(runtime.gres.len(), 1);
    assert_eq!(runtime.gres[0].utilization.gres_percent, 87);
    assert_eq!(runtime.gres[0].memory_used_mb, 1234);
}

#[test]
fn degraded_collector_returns_explainable_error_frame() {
    let mut ctx = context(StaticCollector::failing(ErrorCode::NvmlUnavailable));
    let request = request_frame(FrameType::QueryRequest, 12, &query_payload(100));

    let response = answer(&mut ctx, &request).expect("handle query error");
    let decoded = decode_transport_frame(&response).expect("decode response");
    assert_eq!(decoded.header.frame_type, FrameType::QueryResponse);
    assert_eq!(decoded.header.request_id, 100);

    let response: serde_json::Value =
        serde_json::from_slice(&decoded.payload).expect("query response");
    assert_eq!(response["status"], "Error");
    assert_eq!(response["error"], "NvmlUnavailable");
}

#[test]
fn requests_of_other_versions_are_refused() {
    assert!(matches!(
        handshake_request(1, Ok(HandshakeRequest { version: 9 })),
        Err(TransportError::Protocol(ErrorCode::ProtocolVersionMismatch))
    ));
    assert!(matches!(
        query_request(Ok(QueryRequest { version: 9, request_id: 1 })),
        Err(TransportError::Protocol(ErrorCode::ProtocolVersionMismatch))
    ));
    assert!(matches!(query_request(Err("x".to_string())), Err(TransportError::Json(_))));
    let mut ctx = context(StaticCollector::new());
    assert!(matches!(
        answer(&mut ctx, &request_frame(FrameType::DataPayload, 1, b"")),
        Err(TransportError::UnexpectedFrameType(FrameType::DataPayload))
    ));
    assert!(matches!(
        answer(&mut ctx, b"x"),
        Err(TransportError::FrameDecode(FrameDecodeError::ShortHeader { got: 1, .. }))
    ));
}

#[test]
fn sessions_follow_their_frames() {
    assert!(matches!(
        kcp_step(&KcpRead::Bytes(request_frame(FrameType::Heartbeat, 0, b""))),
        SessionStep::Continue
    ));
    assert!(matches!(
        tcp_step(&request_frame(FrameType::Heartbeat, 0, b"")),
        SessionStep::Failed(TransportError::UnexpectedFrameType(FrameType::Heartbeat))
    ));
    assert!(matches!(kcp_step(&KcpRead::Bytes(Vec::new())), SessionStep::Closed));
    match kcp_step(&KcpRead::TimedOut) {
        SessionStep::TimedOut(frame) => {
            assert_eq!(frame, disconnect_frame("server idle timeout"));
            match tcp_step(&frame) {
                SessionStep::Disconnected(reason) => assert_eq!(reason, "server idle timeout"),
                other => panic!("unexpected step: {other:?}"),
            }
        }
        other => panic!("unexpected step: {other:?}"),
    }
    assert!(accept_session(1, 2).is_none());
    assert_eq!(
        accept_session(2, 2),
        Some(disconnect_frame("server max connections reached"))
    );
    let frame = request_frame(FrameType::QueryRequest, 1, b"abc");
    assert_eq!(payload_len_behind(&frame[..18]), Ok(3));
    assert_eq!(
        payload_len_behind(&frame[..4]),
        Err(FrameHeaderError::TooShort { got: 4, min: 18 })
    );
}

fn peer(port: u16) -> NodeAddr {
    NodeAddr { ip: "10.0.0.1".to_string(), port, ipv4: true, scope_id: 0, flowinfo: 0 }
}

fn entry() -> Result<CacheEntry, ErrorCode> {
    Ok(make_entry(encode_collected(snapshot())?, clock().unix_ms, clock().mono_ns))
}

#[test]
fn datagram_server_answers_an_empty_query_in_one() {
    let mut server = UdpServer::new(1_000, 0);
    let frame = request_frame(FrameType::QueryRequest, 5, b"");
    let datagram = encode_udp_single_chunk(&frame).expect("datagram");
    assert!(matches!(server.on_datagram(&peer(1), &datagram, 0), Step::FindMtu));
    assert!(matches!(server.on_mtu(Some(1500)), Step::FetchEntry));
    match server.on_entry(entry()) {
        Step::Send(datagrams) => {
            assert_eq!(datagrams.len(), 1);
            let frame = decode_udp_single_chunk(&datagrams[0]).expect("decode").expect("frame");
            let expected = reply_frame(Request::Runtime(5), &entry()).expect("reply");
            assert_eq!(frame, expected);
        }
        other => panic!("unexpected step: {other:?}"),
    }
    assert!(matches!(server.on_datagram(&peer(1), &datagram, 0), Step::FetchEntry));
}

#[test]
fn datagram_server_puts_requests_together() {
    let mut server = UdpServer::new(1_000, 0);
    let mut payload = query_payload(9);
    payload.resize(600, b' ');
    let frame = request_frame(FrameType::QueryRequest, 5, &payload);
    let chunks = encode_udp_chunks(&frame, 300).expect("chunks");
    for chunk in &chunks[1..] {
        assert!(matches!(server.on_datagram(&peer(1), chunk, 0), Step::Next));
        assert!(matches!(server.on_datagram(&peer(2), chunk, 0), Step::Next));
    }
    match server.on_datagram(&peer(1), &chunks[0], 1) {
        Step::ParseQuery(bytes) => {
            assert_eq!(bytes, payload);
            assert!(matches!(server.on_query(parse_query(&bytes)), Step::FetchEntry));
        }
        other => panic!("unexpected step: {other:?}"),
    }
    assert!(matches!(server.on_entry(entry()), Step::FindMtu));
    match server.on_mtu(None) {
        Step::Send(datagrams) => assert!(!datagrams.is_empty()),
        other => panic!("unexpected step: {other:?}"),
    }
    assert!(matches!(server.on_datagram(&peer(1), b"junk", 1), Step::Dropped(_)));
}

#[test]
fn datagram_server_answers_a_handshake_and_a_disconnect() {
    let mut server = UdpServer::new(1_000, 1_400);
    let frame = request_frame(
        FrameType::HandshakeRequest,
        3,
        HandshakeRequest::current().to_json().as_bytes(),
    );
    let datagram = encode_udp_single_chunk(&frame).expect("datagram");
    let mut step = server.on_datagram(&peer(1), &datagram, 0);
    if matches!(step, Step::FindMtu) {
        step = server.on_mtu(None);
    }
    match step {
        Step::ParseHandshake(bytes) => {
            assert!(matches!(server.on_handshake(parse_handshake(&bytes)), Step::FetchEntry))
        }
        other => panic!("unexpected step: {other:?}"),
    }
    match server.on_entry(entry()) {
        Step::Send(datagrams) => {
            let frame = decode_udp_single_chunk(&datagrams[0]).expect("decode").expect("frame");
            let expected = reply_frame(Request::Metadata(3), &entry()).expect("reply");
            assert_eq!(frame, expected);
        }
        other => panic!("unexpected step: {other:?}"),
    }
    let bye = encode_udp_single_chunk(&disconnect_frame("done")).expect("datagram");
    match server.on_datagram(&peer(1), &bye, 1) {
        Step::Disconnected(reason) => assert_eq!(reason, "done"),
        other => panic!("unexpected step: {other:?}"),
    }
}

#[test]
fn an_empty_query_is_answered_in_one_datagram_if_it_fits() {
    let mut ctx = context(StaticCollector::new());

    let datagram = ctx
        .handle_empty_query_udp_datagram(9, 1_400, &clock)
        .expect("answer")
        .expect("fits");
    let frame = decode_udp_single_chunk(&datagram).expect("datagram").expect("one chunk");
    let decoded = decode_transport_frame(&frame).expect("frame");
    assert_eq!(decoded.header.frame_type, FrameType::RuntimePayload);
    assert_eq!(decoded.header.request_id, 9);
    let runtime = decode_runtime_payload(&decoded.payload).expect("runtime payload");
    assert_eq!(runtime.gres[0].processes[0].pid, 42);

    let fits = frame.len();
    let exact = ctx.handle_empty_query_udp_datagram(9, fits, &clock).expect("answer");
    assert_eq!(exact, Some(datagram));
    let short = ctx.handle_empty_query_udp_datagram(9, fits - 1, &clock).expect("answer");
    assert_eq!(short, None);
}

#[test]
fn a_handshake_is_answered_in_one_datagram_if_it_fits() {
    let mut ctx = context(StaticCollector::new());
    let hooks = Hooks { clock, parse_handshake, parse_query };
    let payload = HandshakeRequest { version: PROTOCOL_VERSION }.to_json().into_bytes();

    let datagram = ctx
        .handle_udp_metadata_datagram(5, &payload, 1_400, &hooks)
        .expect("answer")
        .expect("fits");
    let frame = decode_udp_single_chunk(&datagram).expect("datagram").expect("one chunk");
    let decoded = decode_transport_frame(&frame).expect("frame");
    assert_eq!(decoded.header.frame_type, FrameType::MetadataPayload);
    assert_eq!(decoded.header.request_id, 5);
    assert_eq!(
        decode_metadata_payload(&decoded.payload).expect("metadata payload").hostname,
        "node-a"
    );

    let short = ctx.handle_udp_metadata_datagram(5, &payload, 32, &hooks).expect("answer");
    assert_eq!(short, None);
    assert!(ctx.handle_udp_metadata_datagram(5, b"{", 1_400, &hooks).is_err());
}

#[test]
fn a_failed_collection_is_answered_in_one_datagram() {
    let mut ctx = context(StaticCollector::failing(ErrorCode::NvmlUnavailable));

    let datagram = ctx
        .handle_empty_query_udp_datagram(3, 1_400, &clock)
        .expect("answer")
        .expect("fits");
    let frame = decode_udp_single_chunk(&datagram).expect("datagram").expect("one chunk");
    let decoded = decode_transport_frame(&frame).expect("frame");
    assert_eq!(decoded.header.frame_type, FrameType::QueryResponse);
    assert_eq!(decoded.header.request_id, 3);
}

#[test]
fn datagrams_fit_the_configured_link() {
    let mut server = UdpServer::new(1_000, 400);
    let frame = request_frame(FrameType::QueryRequest, 5, &query_payload(5));
    let datagram = encode_udp_single_chunk(&frame).expect("datagram");
    for _ in 0..2 {
        let bytes = match server.on_datagram(&peer(1), &datagram, 0) {
            Step::ParseQuery(bytes) => bytes,
            other => panic!("unexpected step: {other:?}"),
        };
        assert!(matches!(server.on_query(parse_query(&bytes)), Step::FetchEntry));
        let mut many = snapshot();
        let one = many.gres[0].processes[0].clone();
        many.gres[0].processes = vec![one; 100];
        let encoded = encode_collected(many).expect("payload");
        let mut step = server.on_entry(Ok(make_entry(encoded, 0, 0)));
        if matches!(step, Step::FindMtu) {
            step = server.on_mtu(Some(9_000));
        }
        match step {
            Step::Send(datagrams) => {
                assert!(datagrams.len() > 1);
                assert!(datagrams.iter().all(|d| d.len() <= 400 - 28));
            }
            other => panic!("unexpected step: {other:?}"),
        }
    }
    let heartbeat = request_frame(FrameType::Heartbeat, 6, b"");
    let datagram = encode_udp_single_chunk(&heartbeat).expect("datagram");
    assert!(matches!(server.on_datagram(&peer(1), &datagram, 0), Step::FrameFailed(_)));
}
