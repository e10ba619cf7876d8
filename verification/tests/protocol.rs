//! Frames, payloads and messages.

use clustat::common::error::ErrorCode;
use clustat::common::frame::{
    decode_frame, encode_frame, FrameDecodeError, FrameHeader, FrameHeaderError, FrameType,
    FRAME_HEADER_LEN, FRAME_MAGIC, PROTOCOL_VERSION,
};
use clustat::common::message::{
    check_version, validate_protocol_version, DiscoveryAnnounce, DiscoveryQuery, HandshakeInfo,
    HandshakeRequest, QueryRequest, QueryResponse, ResponseStatus, VersionCheck,
};
use clustat::common::payload::{
    archived_len_from_payload_len, checked_payload, decode_metadata_payload, decode_payload,
    decode_runtime_payload, decode_snapshot_payload, encode_metadata_payload, encode_payload,
    encode_runtime_payload, encode_snapshot_payload, metadata_fits, payload_len_from_archived_len,
    runtime_fits, snapshot_fits, MAX_PAYLOAD_LEN, PayloadDecodeError, PayloadEncodeError,
    PayloadLenError,
};
use clustat::common::snapshot::{
    GresInfo, GresMemory, GresProcessInfo, GresUtilization, HostMetadata, RuntimeSnapshot,
    ServerGresSnapshot,
};

#[test]
fn payload_len_matches_complete_snapshot_archive_len() {
    assert_eq!(payload_len_from_archived_len(0), Ok(0));
    assert_eq!(payload_len_from_archived_len(4), Ok(4));
    assert_eq!(archived_len_from_payload_len(12), Some(12));
    assert_eq!(archived_len_from_payload_len(0), Some(0));
}

#[test]
fn payload_len_rejects_values_that_do_not_fit_u16() {
    let err = payload_len_from_archived_len(MAX_PAYLOAD_LEN + 1).unwrap_err();
    assert_eq!(
        err,
        PayloadLenError::TooLarge {
            len: MAX_PAYLOAD_LEN + 1,
            max: MAX_PAYLOAD_LEN,
        }
    );
}

#[test]
fn snapshot_payload_roundtrip_preserves_processes() {
    let snapshot = sample_snapshot();
    let payload = encode_snapshot_payload(&snapshot).expect("encode");
    let decoded = decode_snapshot_payload(&payload).expect("decode");

    assert_eq!(decoded, snapshot);
    assert_eq!(decoded.gres[0].processes[0].uid, 1000);
    assert_eq!(
        decoded.gres[0].processes[0].command.as_deref(),
        Some("python train.py")
    );
}

#[test]
fn metadata_and_runtime_payloads_rebuild_snapshot_without_command() {
    let snapshot = sample_snapshot();
    let metadata = HostMetadata::from_snapshot(&snapshot);
    let runtime = RuntimeSnapshot::from_snapshot(&snapshot);

    let metadata_payload = encode_metadata_payload(&metadata).expect("metadata payload");
    let runtime_payload = encode_runtime_payload(&runtime).expect("runtime payload");
    let decoded_metadata =
        decode_metadata_payload(&metadata_payload).expect("decode metadata payload");
    let decoded_runtime =
        decode_runtime_payload(&runtime_payload).expect("decode runtime payload");
    let rebuilt = decoded_runtime.to_snapshot(&decoded_metadata);

    assert_eq!(rebuilt.hostname, snapshot.hostname);
    assert_eq!(rebuilt.driver_version, snapshot.driver_version);
    assert_eq!(rebuilt.gres[0].name, snapshot.gres[0].name);
    assert_eq!(
        rebuilt.gres[0].memory.total_mb,
        snapshot.gres[0].memory.total_mb
    );
    assert_eq!(
        rebuilt.gres[0].memory.used_mb,
        snapshot.gres[0].memory.used_mb
    );
    assert_eq!(
        rebuilt.gres[0].processes[0].uid,
        snapshot.gres[0].processes[0].uid
    );
    assert_eq!(rebuilt.gres[0].processes[0].command, None);
}

#[test]
fn metadata_hash_tracks_static_gres_fields_only() {
    let snapshot = sample_snapshot();
    let metadata = HostMetadata::from_snapshot(&snapshot);
    let base_hash = metadata.metadata_hash();

    let mut runtime_only = snapshot.clone();
    runtime_only.gres[0].memory.used_mb += 1;
    runtime_only.gres[0].utilization.gres_percent = runtime_only.gres[0]
        .utilization
        .gres_percent
        .saturating_sub(1);
    assert_eq!(
        HostMetadata::from_snapshot(&runtime_only).metadata_hash(),
        base_hash
    );

    let mut static_change = snapshot;
    static_change.gres[0].memory.total_mb += 1024;
    assert_ne!(
        HostMetadata::from_snapshot(&static_change).metadata_hash(),
        base_hash
    );
}

#[test]
fn snapshot_payload_roundtrip_allows_empty_gres_list() {
    let snapshot = ServerGresSnapshot {
        hostname: "empty-node".to_string(),
        driver_version: None,
        gres: Vec::new(),
    };

    let payload = encode_snapshot_payload(&snapshot).expect("encode");
    let decoded = decode_snapshot_payload(&payload).expect("decode");

    assert_eq!(decoded, snapshot);
}

#[test]
fn snapshot_payload_roundtrip_preserves_multi_gres_multi_process_shape() {
    let snapshot = ServerGresSnapshot {
        hostname: "test-node-02".to_string(),
        driver_version: None,
        gres: vec![
            GresInfo {
                index: 0,
                name: "NVIDIA A100".to_string(),
                temperature_c: None,
                uuid: Some("GRES-TEST-0000".to_string()),
                memory: GresMemory {
                    used_mb: 1_234,
                    total_mb: 16_384,
                },
                utilization: GresUtilization {
                    gres_percent: 87,
                    memory_percent: 42,
                },
                processes: vec![
                    GresProcessInfo {
                        pid: 1001,
                        uid: 1001,
                        command: Some("python train.py".to_string()),
                        used_memory_mb: 512,
                    },
                    GresProcessInfo {
                        pid: 1002,
                        uid: 1002,
                        command: Some("python eval.py".to_string()),
                        used_memory_mb: 256,
                    },
                ],
            },
            GresInfo {
                index: 1,
                name: "NVIDIA A100".to_string(),
                temperature_c: None,
                uuid: Some("GRES-TEST-0001".to_string()),
                memory: GresMemory {
                    used_mb: 2_048,
                    total_mb: 16_384,
                },
                utilization: GresUtilization {
                    gres_percent: 12,
                    memory_percent: 8,
                },
                processes: Vec::new(),
            },
        ],
    };

    let payload = encode_snapshot_payload(&snapshot).expect("encode");
    let decoded = decode_snapshot_payload(&payload).expect("decode");

    assert_eq!(decoded.hostname, "test-node-02");
    assert_eq!(decoded.gres.len(), 2);
    assert_eq!(decoded.gres[0].index, 0);
    assert_eq!(decoded.gres[1].index, 1);
    assert_eq!(decoded.gres[0].uuid.as_deref(), Some("GRES-TEST-0000"));
    assert_eq!(decoded.gres[1].uuid.as_deref(), Some("GRES-TEST-0001"));
    assert_eq!(decoded.gres[0].processes.len(), 2);
    assert_eq!(decoded.gres[0].processes[0].uid, 1001);
    assert_eq!(decoded.gres[0].processes[1].pid, 1002);
    assert_eq!(decoded, snapshot);
}

#[test]
fn snapshot_payload_decode_rejects_empty_bytes() {
    assert_eq!(decode_snapshot_payload(&[]), Err(PayloadDecodeError::Empty));
}

#[test]
fn snapshot_payload_encode_rejects_u16_overflow() {
    let snapshot = ServerGresSnapshot {
        hostname: "oversized-node".to_string(),
        driver_version: None,
        gres: vec![GresInfo {
            index: 0,
            name: "x".repeat(MAX_PAYLOAD_LEN + 1),
            temperature_c: None,
            uuid: None,
            memory: GresMemory {
                used_mb: 0,
                total_mb: 0,
            },
            utilization: GresUtilization {
                gres_percent: 0,
                memory_percent: 0,
            },
            processes: Vec::new(),
        }],
    };

    let err = encode_snapshot_payload(&snapshot).unwrap_err();
    match err {
        PayloadEncodeError::PayloadTooLarge { len, max } => {
            assert!(len > MAX_PAYLOAD_LEN);
            assert_eq!(max, MAX_PAYLOAD_LEN);
        }
        other => panic!("unexpected error: {other:?}"),
    }
}

#[test]
fn frame_header_roundtrip() {
    let header = FrameHeader::new(FrameType::RuntimePayload, 42, 4096);
    let encoded = header.encode();
    assert_eq!(&encoded[0..4], &FRAME_MAGIC);
    assert_eq!(FrameHeader::decode(&encoded), Ok(header));
}

#[test]
fn complete_frame_roundtrip() {
    let header = FrameHeader::new(FrameType::QueryRequest, 42, 0);
    let payload = b"{\"version\":1,\"request_id\":42}";
    let frame = encode_frame(header, payload);
    let (decoded_header, decoded_payload) = decode_frame(&frame).expect("decode frame");

    assert_eq!(decoded_header.frame_type, FrameType::QueryRequest);
    assert_eq!(decoded_header.request_id, 42);
    assert_eq!(decoded_header.payload_len, payload.len() as u32);
    assert_eq!(decoded_payload, payload);
}

#[test]
fn complete_frame_roundtrip_allows_empty_payload() {
    let header = FrameHeader::new(FrameType::HandshakeRequest, 1, 123);
    let frame = encode_frame(header, &[]);
    let (decoded_header, decoded_payload) = decode_frame(&frame).expect("decode frame");

    assert_eq!(decoded_header.frame_type, FrameType::HandshakeRequest);
    assert_eq!(decoded_header.request_id, 1);
    assert_eq!(decoded_header.payload_len, 0);
    assert!(decoded_payload.is_empty());
}

#[test]
fn complete_frame_roundtrip_allows_large_transport_payload() {
    let payload = vec![0xabu8; MAX_PAYLOAD_LEN + 512];
    let frame = encode_frame(FrameHeader::new(FrameType::RuntimePayload, 5, 0), &payload);
    let (decoded_header, decoded_payload) = decode_frame(&frame).expect("decode frame");

    assert_eq!(decoded_header.frame_type, FrameType::RuntimePayload);
    assert_eq!(decoded_header.payload_len, payload.len() as u32);
    assert_eq!(decoded_payload, payload);
    assert!(payload_len_from_archived_len(decoded_payload.len()).is_err());
}

#[test]
fn complete_frame_rejects_payload_length_mismatch() {
    let header = FrameHeader::new(FrameType::RuntimePayload, 7, 10);
    let mut frame = Vec::from(header.encode());
    frame.extend_from_slice(b"short");

    assert_eq!(
        decode_frame(&frame),
        Err(FrameDecodeError::PayloadLengthMismatch {
            expected: 10,
            actual: 5,
        })
    );
}

#[test]
fn complete_frame_decode_does_not_accept_concatenated_frames() {
    let first = encode_frame(FrameHeader::new(FrameType::QueryRequest, 1, 0), b"one");
    let second = encode_frame(FrameHeader::new(FrameType::QueryRequest, 2, 0), b"two");
    let mut concatenated = first;
    concatenated.extend_from_slice(&second);

    assert_eq!(
        decode_frame(&concatenated),
        Err(FrameDecodeError::PayloadLengthMismatch {
            expected: 3,
            actual: 3 + FRAME_HEADER_LEN + 3,
        })
    );
}

#[test]
fn frame_header_rejects_invalid_inputs() {
    assert_eq!(
        FrameHeader::decode(&[0u8; 4]),
        Err(FrameHeaderError::TooShort {
            got: 4,
            min: FRAME_HEADER_LEN,
        })
    );

    let mut bad_magic = FrameHeader::new(FrameType::QueryRequest, 1, 0).encode();
    bad_magic[0] = b'X';
    assert_eq!(
        FrameHeader::decode(&bad_magic),
        Err(FrameHeaderError::BadMagic)
    );

    let mut bad_version = FrameHeader::new(FrameType::QueryRequest, 1, 0).encode();
    bad_version[4] = PROTOCOL_VERSION + 1;
    assert_eq!(
        FrameHeader::decode(&bad_version),
        Err(FrameHeaderError::VersionMismatch {
            expected: PROTOCOL_VERSION,
            got: PROTOCOL_VERSION + 1,
        })
    );

    let mut bad_type = FrameHeader::new(FrameType::QueryRequest, 1, 0).encode();
    bad_type[5] = 255;
    assert_eq!(
        FrameHeader::decode(&bad_type),
        Err(FrameHeaderError::UnknownFrameType(255))
    );
}

#[test]
fn complete_frame_rejects_version_mismatch() {
    let mut frame = encode_frame(FrameHeader::new(FrameType::QueryRequest, 1, 0), b"{}");
    frame[4] = PROTOCOL_VERSION + 1;

    assert_eq!(
        decode_frame(&frame),
        Err(FrameDecodeError::VersionMismatch {
            expected: PROTOCOL_VERSION,
            got: PROTOCOL_VERSION + 1,
        })
    );
}

#[test]
fn complete_frame_rejects_unknown_frame_type() {
    let mut frame = encode_frame(FrameHeader::new(FrameType::QueryRequest, 1, 0), b"{}");
    frame[5] = 255;

    assert_eq!(
        decode_frame(&frame),
        Err(FrameDecodeError::UnknownFrameType(255))
    );
}

#[test]
fn binary_handshake_query_runtime_sequence_encodes_and_decodes() {
    let request_id = 99;

    let handshake_request = HandshakeRequest::current();
    let handshake_request_payload = handshake_request.to_json().into_bytes();
    let handshake_request_frame = encode_frame(
        FrameHeader::new(FrameType::HandshakeRequest, 0, 0),
        &handshake_request_payload,
    );
    let (header, payload) =
        decode_frame(&handshake_request_frame).expect("decode handshake request");
    assert_eq!(header.frame_type, FrameType::HandshakeRequest);
    let value: serde_json::Value =
        serde_json::from_slice(payload).expect("decode handshake request payload");
    let decoded_request = HandshakeRequest {
        version: value["version"].as_u64().expect("version") as u8,
    };
    assert_eq!(decoded_request.validate(), Ok(()));

    let snapshot = sample_snapshot();
    let metadata = HostMetadata::from_snapshot(&snapshot);
    let metadata_payload = encode_metadata_payload(&metadata).expect("encode metadata");
    let metadata_frame = encode_frame(
        FrameHeader::new(FrameType::MetadataPayload, 0, 0),
        &metadata_payload,
    );
    let (header, payload) = decode_frame(&metadata_frame).expect("decode metadata frame");
    assert_eq!(header.frame_type, FrameType::MetadataPayload);
    let decoded_metadata = decode_metadata_payload(payload).expect("decode metadata payload");
    assert_eq!(decoded_metadata.hostname, snapshot.hostname);
    assert_eq!(decoded_metadata.gres.len(), snapshot.gres.len());

    let query = QueryRequest {
        version: PROTOCOL_VERSION,
        request_id,
    };
    let query_payload = query.to_json().into_bytes();
    let query_frame = encode_frame(
        FrameHeader::new(FrameType::QueryRequest, request_id, 0),
        &query_payload,
    );
    let (header, payload) = decode_frame(&query_frame).expect("decode query");
    assert_eq!(header.frame_type, FrameType::QueryRequest);
    assert_eq!(header.request_id, request_id);
    let value: serde_json::Value = serde_json::from_slice(payload).expect("decode query payload");
    let decoded_query = QueryRequest {
        version: value["version"].as_u64().expect("version") as u8,
        request_id: value["request_id"].as_u64().expect("request id"),
    };
    assert_eq!(decoded_query, query);

    let runtime = RuntimeSnapshot::from_snapshot(&snapshot);
    let runtime_payload = encode_runtime_payload(&runtime).expect("encode runtime");
    let runtime_frame = encode_frame(
        FrameHeader::new(FrameType::RuntimePayload, request_id, 0),
        &runtime_payload,
    );
    let (header, payload) = decode_frame(&runtime_frame).expect("decode runtime frame");
    assert_eq!(header.frame_type, FrameType::RuntimePayload);
    assert_eq!(header.request_id, request_id);
    assert_eq!(header.payload_len, runtime_payload.len() as u32);
    let decoded_runtime = decode_runtime_payload(payload).expect("decode runtime payload");
    assert_eq!(
        decoded_runtime.to_snapshot(&decoded_metadata),
        runtime.to_snapshot(&metadata)
    );
}

#[test]
fn handshake_version_mismatch_uses_stable_error_code() {
    let req = HandshakeRequest {
        version: PROTOCOL_VERSION + 1,
    };
    assert_eq!(
        req.validate(),
        Err(ErrorCode::ProtocolVersionMismatch)
    );
    assert_eq!(ErrorCode::ProtocolVersionMismatch.code(), 1010);
}

#[test]
fn query_response_roundtrip() {
    let resp = QueryResponse::error(42, ErrorCode::QueryTimeout);
    let data = resp.to_json().into_bytes();
    let value: serde_json::Value = serde_json::from_slice(&data).expect("deserialize");
    assert_eq!(value["status"], "Error");
    assert_eq!(value["error"], "QueryTimeout");
    let decoded = QueryResponse {
        version: value["version"].as_u64().expect("version") as u8,
        request_id: value["request_id"].as_u64().expect("request id"),
        status: ResponseStatus::Error,
        error: Some(ErrorCode::QueryTimeout),
    };
    assert_eq!(decoded, resp);
}

#[test]
fn version_mismatch_behavior() {
    let result = check_version(PROTOCOL_VERSION + 1);
    assert_eq!(
        result,
        VersionCheck::Mismatch {
            expected: PROTOCOL_VERSION,
            got: PROTOCOL_VERSION + 1,
        }
    );
    assert_eq!(
        validate_protocol_version(PROTOCOL_VERSION + 1),
        Err(ErrorCode::ProtocolVersionMismatch)
    );
}

fn sample_snapshot() -> ServerGresSnapshot {
    ServerGresSnapshot {
        hostname: "node-a".to_string(),
        driver_version: None,
        gres: vec![GresInfo {
            index: 0,
            name: "NVIDIA A100".to_string(),
            temperature_c: None,
            uuid: Some("GRES-123".to_string()),
            memory: GresMemory {
                used_mb: 1024,
                total_mb: 81920,
            },
            utilization: GresUtilization {
                gres_percent: 75,
                memory_percent: 20,
            },
            processes: vec![GresProcessInfo {
                pid: 1234,
                uid: 1000,
                command: Some("python train.py".to_string()),
                used_memory_mb: 512,
            }],
        }],
    }
}

#[test]
fn frame_types_have_codes() {
    let types = [
        (FrameType::HandshakeRequest, 3u8),
        (FrameType::HandshakeInfo, 4),
        (FrameType::QueryRequest, 5),
    ];
    for (frame_type, code) in types {
        assert_eq!(frame_type.code(), code);
        assert_eq!(FrameType::try_from(code), Ok(frame_type));
    }
    assert_eq!(FrameType::try_from(0), Err(FrameHeaderError::UnknownFrameType(0)));
}

#[test]
fn header_is_laid_out_big_endian() {
    let bytes = FrameHeader::new(FrameType::QueryRequest, 0x0102030405060708, 0x0a0b0c0d).encode();
    assert_eq!(&bytes[0..4], b"G4C1");
    assert_eq!(bytes[4], 1);
    assert_eq!(&bytes[6..14], &[1, 2, 3, 4, 5, 6, 7, 8]);
    assert_eq!(&bytes[14..18], &[0x0a, 0x0b, 0x0c, 0x0d]);
}

#[test]
fn short_frames_are_refused() {
    assert_eq!(
        decode_frame(b"G4C1"),
        Err(FrameDecodeError::ShortHeader { got: 4, min: FRAME_HEADER_LEN })
    );
    let mut frame = encode_frame(FrameHeader::new(FrameType::QueryRequest, 1, 0), b"");
    frame[0] = 0;
    assert_eq!(decode_frame(&frame), Err(FrameDecodeError::BadMagic));
    assert_eq!(
        FrameDecodeError::from(FrameHeaderError::UnknownFrameType(9)),
        FrameDecodeError::UnknownFrameType(9)
    );
}

#[test]
fn archives_that_fail_or_do_not_fit_are_refused() {
    assert_eq!(
        checked_payload(Err("no".to_string())),
        Err(PayloadEncodeError::SerializeFailed("no".to_string()))
    );
    assert_eq!(
        checked_payload(Ok(vec![0u8; MAX_PAYLOAD_LEN + 1])),
        Err(PayloadEncodeError::PayloadTooLarge { len: MAX_PAYLOAD_LEN + 1, max: MAX_PAYLOAD_LEN })
    );
    assert_eq!(checked_payload(Ok(vec![1, 2])), Ok(vec![1, 2]));
    assert!(matches!(
        decode_snapshot_payload(&[1, 2, 3]),
        Err(PayloadDecodeError::DeserializeFailed(_))
    ));
    assert!(matches!(
        decode_metadata_payload(&[1, 2, 3]),
        Err(PayloadDecodeError::DeserializeFailed(_))
    ));
    assert!(matches!(
        decode_runtime_payload(&[1, 2, 3]),
        Err(PayloadDecodeError::DeserializeFailed(_))
    ));
    assert_eq!(decode_metadata_payload(&[]), Err(PayloadDecodeError::Empty));
    assert_eq!(decode_runtime_payload(&[]), Err(PayloadDecodeError::Empty));
}

#[test]
fn archives_read_back_at_any_alignment() {
    let snapshot = sample_snapshot();
    let metadata = HostMetadata::from_snapshot(&snapshot);
    let runtime = RuntimeSnapshot::from_snapshot(&snapshot);
    let archives = [
        encode_snapshot_payload(&snapshot).expect("snapshot"),
        encode_metadata_payload(&metadata).expect("metadata"),
        encode_runtime_payload(&runtime).expect("runtime"),
    ];
    for shift in 0..8usize {
        let mut shifted = Vec::new();
        for archive in &archives {
            let mut bytes = vec![0u8; shift];
            bytes.extend_from_slice(archive);
            shifted.push(bytes);
        }
        assert_eq!(decode_snapshot_payload(&shifted[0][shift..]), Ok(snapshot.clone()));
        assert_eq!(decode_metadata_payload(&shifted[1][shift..]), Ok(metadata.clone()));
        assert_eq!(decode_runtime_payload(&shifted[2][shift..]), Ok(runtime.clone()));
    }
}

#[test]
fn stamped_payload_reads_back() {
    let payload = encode_payload(-2, b"abc").expect("encode");
    assert_eq!(payload, [0xff, 0xff, 0xff, 0xff, 0xff, 0xff, 0xff, 0xfe, b'a', b'b', b'c']);
    assert_eq!(decode_payload(&payload), Some((-2, &b"abc"[..])));
    assert_eq!(decode_payload(&payload[..7]), None);
    assert_eq!(
        encode_payload(0, &vec![0u8; MAX_PAYLOAD_LEN]),
        Err(PayloadLenError::TooLarge { len: MAX_PAYLOAD_LEN + 8, max: MAX_PAYLOAD_LEN })
    );
}

#[test]
fn parts_keep_what_each_was_made_of() {
    let snapshot = sample_snapshot();
    let metadata = HostMetadata::from_snapshot(&snapshot);
    let runtime = RuntimeSnapshot::from_snapshot(&snapshot);
    let rebuilt = runtime.to_snapshot(&metadata);
    assert_eq!(HostMetadata::from_snapshot(&rebuilt), metadata);
    assert_eq!(RuntimeSnapshot::from_snapshot(&rebuilt), runtime);
    assert_eq!(runtime.metadata_hash, metadata.metadata_hash());
}

#[test]
fn messages_have_their_json_form() {
    assert_eq!(HandshakeRequest::current().to_json(), r#"{"version":1}"#);
    assert_eq!(DiscoveryQuery { version: 1 }.to_json(), r#"{"version":1}"#);
    assert_eq!(
        QueryRequest { version: 1, request_id: 42 }.to_json(),
        r#"{"version":1,"request_id":42}"#
    );
    assert_eq!(
        QueryResponse::ok(7).to_json(),
        r#"{"version":1,"request_id":7,"status":"Ok","error":null}"#
    );
    let announce = DiscoveryAnnounce {
        version: 1,
        hostname: "node \"a\"".to_string(),
        ip: "10.0.0.1".to_string(),
        port: 30001,
        tcp_port: Some(30002),
        kcp_port: None,
        udp_port: Some(30001),
        ttl: None,
        load: Some(3),
        degraded: Some(false),
    };
    let value: serde_json::Value = serde_json::from_str(&announce.to_json()).expect("json");
    assert_eq!(value["hostname"], "node \"a\"");
    assert_eq!(value["ip"], "10.0.0.1");
    assert_eq!(value["port"], 30001);
    assert_eq!(value["tcp_port"], 30002);
    assert!(value["kcp_port"].is_null());
    assert_eq!(value["udp_port"], 30001);
    assert!(value["ttl"].is_null());
    assert_eq!(value["load"], 3);
    assert_eq!(value["degraded"], false);
}

#[test]
fn handshake_info_is_validated() {
    let info = HandshakeInfo::current("node-a".to_string(), 2, 100);
    assert_eq!(info.validate(), Ok(()));
    assert_eq!(info.payload_len, 100);
    let other = HandshakeInfo { version: 9, ..info };
    assert_eq!(other.validate(), Err(ErrorCode::ProtocolVersionMismatch));
    assert_eq!(check_version(PROTOCOL_VERSION), VersionCheck::Matched);
}

#[test]
fn every_memory_figure_counts_in_the_hash() {
    let base = HostMetadata::from_snapshot(&sample_snapshot());
    let hash = base.metadata_hash();
    for total in [0u64, 1, 81919, 81921, 82944, 0xff_ffff] {
        let mut changed = sample_snapshot();
        changed.gres[0].memory.total_mb = total;
        assert_ne!(HostMetadata::from_snapshot(&changed).metadata_hash(), hash, "total {total}");
    }
}

#[test]
fn ordinary_values_fit_the_archiver() {
    let snapshot = sample_snapshot();
    assert!(snapshot_fits(&snapshot));
    assert!(metadata_fits(&HostMetadata::from_snapshot(&snapshot)));
    assert!(runtime_fits(&RuntimeSnapshot::from_snapshot(&snapshot)));
}
