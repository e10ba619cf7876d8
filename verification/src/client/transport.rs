//! Frames of the client: those it sends and those it reads.

use vstd::prelude::*;
use vstd::utf8::encode_utf8;
use crate::common::error::ErrorCode;
use crate::common::frame::{
    decode_frame, encode_frame, frame_bytes, spec_decode_frame, FrameDecodeError, FrameHeader,
    FrameType, PROTOCOL_VERSION,
};
use crate::common::message::{
    HandshakeInfo, HandshakeRequest, QueryRequest as WireQueryRequest,
    QueryResponse as WireQueryResponse, ResponseStatus,
};
use crate::common::payload::{
    decode_metadata_payload, decode_runtime_payload, decode_snapshot_payload, metadata_archive,
    metadata_in, payload_sized, runtime_archive, runtime_in, snapshot_archive, snapshot_in,
    PayloadDecodeError,
};
use crate::common::snapshot::{
    HostMetadata, MetadataView, RuntimeSnapshot, RuntimeView, ServerGresSnapshot, SnapshotView,
};
use crate::server::session::{step_after_frame, SessionStepView};
use crate::server::transport::Request;
use crate::text::{
    decimal, lossy_text, push_decimal, quoted, quoted_text, text_in, trim, trimmed,
};

verus! {

/// Why a frame cannot be used.
#[derive(Debug, Clone, PartialEq, Eq)]
pub enum TransportError {
    Frame(FrameDecodeError),
    UnexpectedFrameType { expected: FrameType, got: FrameType },
    Json(String),
    Payload(String),
    QueryError(Option<ErrorCode>),
}

/// The header of a frame of the current version.
pub open spec fn header_for(frame_type: FrameType, request_id: u64) -> FrameHeader {
    FrameHeader { version: PROTOCOL_VERSION, frame_type, request_id, payload_len: 0 }
}

/// A frame with the given payload, unless it is longer than a frame can say.
pub open spec fn frame_with(frame_type: FrameType, request_id: u64, payload: Seq<u8>) -> Result<
    Seq<u8>,
    Seq<char>,
> {
    if payload.len() > u32::MAX {
        Err("payload too large for frame: "@ + decimal(payload.len()) + " bytes"@)
    } else {
        Ok(frame_bytes(header_for(frame_type, request_id), payload))
    }
}

/// Whether an outcome is the given frame, or the fault of its payload.
pub open spec fn is_frame(
    r: Result<Vec<u8>, TransportError>,
    wanted: Result<Seq<u8>, Seq<char>>,
) -> bool {
    match r {
        Ok(b) => wanted == Ok::<Seq<u8>, Seq<char>>(b@),
        Err(e) => e matches TransportError::Payload(t) && wanted == Err::<Seq<u8>, Seq<char>>(t@),
    }
}

/// A frame with the given payload.
pub fn encode_bytes_frame(frame_type: FrameType, request_id: u64, payload: &[u8]) -> (r: Result<
    Vec<u8>,
    TransportError,
>)
    ensures
        is_frame(r, frame_with(frame_type, request_id, payload@)),
{
    if payload.len() as u64 > u32::MAX as u64 {
        let mut out = "payload too large for frame: ".to_owned();
        push_decimal(&mut out, payload.len() as u64);
        out.append(" bytes");
        return Err(TransportError::Payload(out));
    }
    let header = FrameHeader::new(frame_type, request_id, payload.len() as u32);
    let frame = encode_frame(header, payload);
    assert(header.with_len(payload@.len()) == header_for(frame_type, request_id).with_len(
        payload@.len(),
    ));
    Ok(frame)
}

/// A frame with a JSON text for a payload.
pub fn encode_json_frame(frame_type: FrameType, request_id: u64, json: &str) -> (r: Result<
    Vec<u8>,
    TransportError,
>)
    ensures
        is_frame(r, frame_with(frame_type, request_id, encode_utf8(json@))),
{
    encode_bytes_frame(frame_type, request_id, json.as_bytes())
}

/// The frame that opens a connection.
pub fn build_handshake_request_frame(request_id: u64) -> (r: Result<Vec<u8>, TransportError>)
    ensures
        is_frame(
            r,
            frame_with(
                FrameType::HandshakeRequest,
                request_id,
                encode_utf8((HandshakeRequest { version: PROTOCOL_VERSION }).spec_json()),
            ),
        ),
{
    let json = HandshakeRequest::current().to_json();
    encode_json_frame(FrameType::HandshakeRequest, request_id, json.as_str())
}

/// The frame that asks for the runtime part.
pub fn build_query_request_frame(request_id: u64) -> (r: Result<Vec<u8>, TransportError>)
    ensures
        is_frame(
            r,
            frame_with(
                FrameType::QueryRequest,
                request_id,
                encode_utf8(
                    (WireQueryRequest { version: PROTOCOL_VERSION, request_id }).spec_json(),
                ),
            ),
        ),
{
    let request = WireQueryRequest { version: PROTOCOL_VERSION, request_id };
    let json = request.to_json();
    encode_json_frame(FrameType::QueryRequest, request_id, json.as_str())
}

/// The frame that keeps a connection alive.
pub fn build_heartbeat_frame(request_id: u64) -> (r: Result<Vec<u8>, TransportError>)
    ensures
        is_frame(r, frame_with(FrameType::Heartbeat, request_id, Seq::empty())),
{
    let none: Vec<u8> = Vec::new();
    assert(none@ =~= Seq::empty());
    encode_bytes_frame(FrameType::Heartbeat, request_id, none.as_slice())
}

/// The frame that closes a connection.
pub fn build_disconnect_frame(request_id: u64, reason: &str) -> (r: Result<Vec<u8>, TransportError>)
    ensures
        is_frame(r, frame_with(FrameType::Disconnect, request_id, encode_utf8(reason@))),
{
    encode_bytes_frame(FrameType::Disconnect, request_id, reason.as_bytes())
}

/// A frame with the archive of a snapshot.
pub fn build_data_payload_frame(request_id: u64, payload: &[u8]) -> (r: Result<
    Vec<u8>,
    TransportError,
>)
    ensures
        is_frame(r, frame_with(FrameType::DataPayload, request_id, payload@)),
{
    encode_bytes_frame(FrameType::DataPayload, request_id, payload)
}

/// A frame with the answer to a query.
pub fn build_query_response_frame(request_id: u64, response: &WireQueryResponse) -> (r: Result<
    Vec<u8>,
    TransportError,
>)
    ensures
        is_frame(
            r,
            frame_with(FrameType::QueryResponse, request_id, encode_utf8(response.spec_json())),
        ),
{
    let json = response.to_json();
    encode_json_frame(FrameType::QueryResponse, request_id, json.as_str())
}

// ---------------------------------------------------------------------------
// Reading

/// The header and the payload of a frame of the expected type.
pub open spec fn expected_frame(frame: Seq<u8>, expected: FrameType) -> Result<
    (FrameHeader, Seq<u8>),
    TransportError,
> {
    match spec_decode_frame(frame) {
        Err(e) => Err(TransportError::Frame(e)),
        Ok((header, payload)) => if header.frame_type != expected {
            Err(TransportError::UnexpectedFrameType { expected, got: header.frame_type })
        } else {
            Ok((header, payload))
        },
    }
}

/// Takes a frame of the expected type apart.
pub fn split_frame(frame: &[u8], expected: FrameType) -> (r: Result<
    (FrameHeader, &[u8]),
    TransportError,
>)
    ensures
        match r {
            Ok((h, p)) => expected_frame(frame@, expected) == Ok::<
                (FrameHeader, Seq<u8>),
                TransportError,
            >((h, p@)),
            Err(e) => expected_frame(frame@, expected) == Err::<
                (FrameHeader, Seq<u8>),
                TransportError,
            >(e),
        },
{
    match decode_frame(frame) {
        Err(e) => Err(TransportError::Frame(e)),
        Ok((header, payload)) => {
            if header.frame_type != expected {
                return Err(
                    TransportError::UnexpectedFrameType { expected, got: header.frame_type },
                );
            }
            Ok((header, payload))
        },
    }
}

/// The text for a payload that is no archive.
pub open spec fn payload_fault(what: Seq<char>, fault: PayloadDecodeError) -> Seq<char> {
    "decode "@ + what + " payload failed: "@ + (match fault {
        PayloadDecodeError::Empty => "Empty"@,
        PayloadDecodeError::DeserializeFailed(e) => "DeserializeFailed("@ + quoted(e@) + ")"@,
    })
}

/// Whether `e` is the error for a payload that is no archive.
pub open spec fn payload_error(p: Seq<u8>, what: Seq<char>, e: TransportError) -> bool {
    exists|fault: PayloadDecodeError|
        (fault is Empty <==> p.len() == 0) && (e matches TransportError::Payload(t) && t@
            == #[trigger] payload_fault(what, fault))
}

fn payload_fails(what: &str, fault: PayloadDecodeError) -> (r: TransportError)
    ensures
        r matches TransportError::Payload(t) && t@ == payload_fault(what@, fault),
{
    let tail = match &fault {
        PayloadDecodeError::Empty => "Empty".to_owned(),
        PayloadDecodeError::DeserializeFailed(e) => {
            let mut tail = "DeserializeFailed(".to_owned();
            tail.append(quoted_text(e.as_str()).as_str());
            tail.append(")");
            tail
        },
    };
    let mut out = "decode ".to_owned();
    out.append(what);
    out.append(" payload failed: ");
    out.append(tail.as_str());
    TransportError::Payload(out)
}

/// Whether a frame is one of the given type with the given archive in it.
pub open spec fn carries(frame: Seq<u8>, frame_type: FrameType, archive: Seq<u8>) -> bool {
    payload_sized(archive) && (expected_frame(frame, frame_type) matches Ok((_, p)) && p == archive)
}

/// Whether `r` is the metadata in a frame, or why there is none.
pub open spec fn reads_metadata(frame: Seq<u8>, r: Result<HostMetadata, TransportError>) -> bool {
    match expected_frame(frame, FrameType::MetadataPayload) {
        Err(e) => r == Err::<HostMetadata, TransportError>(e),
        Ok((_, p)) => match r {
            Ok(m) => metadata_in(p) == Some(m@),
            Err(e) => metadata_in(p) is None && payload_error(p, "metadata"@, e),
        },
    }
}

/// Whether `r` is the runtime part in a frame, or why there is none.
pub open spec fn reads_runtime(frame: Seq<u8>, r: Result<RuntimeSnapshot, TransportError>) -> bool {
    match expected_frame(frame, FrameType::RuntimePayload) {
        Err(e) => r == Err::<RuntimeSnapshot, TransportError>(e),
        Ok((_, p)) => match r {
            Ok(m) => runtime_in(p) == Some(m@),
            Err(e) => runtime_in(p) is None && payload_error(p, "runtime"@, e),
        },
    }
}

/// Whether `r` is the snapshot in a frame, or why there is none.
pub open spec fn reads_snapshot(frame: Seq<u8>, r: Result<ServerGresSnapshot, TransportError>) -> bool {
    match expected_frame(frame, FrameType::DataPayload) {
        Err(e) => r == Err::<ServerGresSnapshot, TransportError>(e),
        Ok((_, p)) => match r {
            Ok(m) => snapshot_in(p) == Some(m@),
            Err(e) => snapshot_in(p) is None && payload_error(p, "snapshot"@, e),
        },
    }
}

/// The metadata in a frame.
pub fn parse_metadata_payload_frame(frame: &[u8]) -> (r: Result<HostMetadata, TransportError>)
    ensures
        reads_metadata(frame@, r),
        forall|m: MetadataView| #[trigger]
            metadata_archive(m) is Some && carries(
                frame@,
                FrameType::MetadataPayload,
                metadata_archive(m)->0,
            ) ==> (r matches Ok(x) && x@ == m),
{
    let payload = match split_frame(frame, FrameType::MetadataPayload) {
        Ok((_, p)) => p,
        Err(e) => {
            return Err(e);
        },
    };
    match decode_metadata_payload(payload) {
        Ok(m) => Ok(m),
        Err(e) => Err(payload_fails("metadata", e)),
    }
}

/// The runtime part in a frame.
pub fn parse_runtime_payload_frame(frame: &[u8]) -> (r: Result<RuntimeSnapshot, TransportError>)
    ensures
        reads_runtime(frame@, r),
        forall|m: RuntimeView| #[trigger]
            runtime_archive(m) is Some && carries(
                frame@,
                FrameType::RuntimePayload,
                runtime_archive(m)->0,
            ) ==> (r matches Ok(x) && x@ == m),
{
    let payload = match split_frame(frame, FrameType::RuntimePayload) {
        Ok((_, p)) => p,
        Err(e) => {
            return Err(e);
        },
    };
    match decode_runtime_payload(payload) {
        Ok(m) => Ok(m),
        Err(e) => Err(payload_fails("runtime", e)),
    }
}

/// The snapshot in a frame.
pub fn parse_data_payload_frame(frame: &[u8]) -> (r: Result<ServerGresSnapshot, TransportError>)
    ensures
        reads_snapshot(frame@, r),
        forall|m: SnapshotView| #[trigger]
            snapshot_archive(m) is Some && carries(
                frame@,
                FrameType::DataPayload,
                snapshot_archive(m)->0,
            ) ==> (r matches Ok(x) && x@ == m),
{
    let payload = match split_frame(frame, FrameType::DataPayload) {
        Ok((_, p)) => p,
        Err(e) => {
            return Err(e);
        },
    };
    match decode_snapshot_payload(payload) {
        Ok(m) => Ok(m),
        Err(e) => Err(payload_fails("snapshot", e)),
    }
}

/// The reason in a disconnect frame.
pub fn parse_disconnect_reason_frame(frame: &[u8]) -> (r: Result<String, TransportError>)
    ensures
        match expected_frame(frame@, FrameType::Disconnect) {
            Err(e) => r == Err::<String, TransportError>(e),
            Ok((_, p)) => r matches Ok(s) && s@ == trimmed(text_in(p)),
        },
{
    match split_frame(frame, FrameType::Disconnect) {
        Ok((_, p)) => Ok(trim(lossy_text(p).as_str())),
        Err(e) => Err(e),
    }
}

/// What becomes of a handshake that was read: another protocol version is
/// refused.
pub open spec fn handshake_outcome(
    parsed: Result<HandshakeInfo, String>,
    r: Result<HandshakeInfo, TransportError>,
) -> bool {
    match parsed {
        Err(text) => r matches Err(TransportError::Json(t)) && t@
            == "decode HandshakeInfo failed: "@ + text@,
        Ok(info) => if info.version == PROTOCOL_VERSION {
            r == Ok::<HandshakeInfo, TransportError>(info)
        } else {
            r == Err::<HandshakeInfo, TransportError>(
                TransportError::QueryError(Some(ErrorCode::ProtocolVersionMismatch)),
            )
        },
    }
}

/// What becomes of a handshake that was read.
pub fn check_handshake_info(parsed: Result<HandshakeInfo, String>) -> (r: Result<
    HandshakeInfo,
    TransportError,
>)
    ensures
        handshake_outcome(parsed, r),
{
    match parsed {
        Err(text) => {
            let mut out = "decode HandshakeInfo failed: ".to_owned();
            out.append(text.as_str());
            Err(TransportError::Json(out))
        },
        Ok(info) => match info.validate() {
            Ok(()) => Ok(info),
            Err(code) => Err(TransportError::QueryError(Some(code))),
        },
    }
}

/// The handshake in a frame. `parse` reads it as JSON.
pub fn parse_handshake_info_frame<P: Fn(&[u8]) -> Result<HandshakeInfo, String>>(
    frame: &[u8],
    parse: &P,
) -> (r: Result<HandshakeInfo, TransportError>)
    requires
        forall|b: &[u8]| #[trigger] call_requires(*parse, (b,)),
    ensures
        match expected_frame(frame@, FrameType::HandshakeInfo) {
            Err(e) => r == Err::<HandshakeInfo, TransportError>(e),
            Ok((_, p)) => exists|b: &[u8], parsed: Result<HandshakeInfo, String>|
                b@ == p && #[trigger] call_ensures(*parse, (b,), parsed) && handshake_outcome(
                    parsed,
                    r,
                ),
        },
{
    match split_frame(frame, FrameType::HandshakeInfo) {
        Ok((_, p)) => {
            let parsed = parse(p);
            assert(call_ensures(*parse, (p,), parsed));
            check_handshake_info(parsed)
        },
        Err(e) => Err(e),
    }
}

/// What becomes of an answer that was read: the error it carries, or none.
pub open spec fn response_outcome(
    parsed: Result<WireQueryResponse, String>,
    r: Result<Option<ErrorCode>, TransportError>,
) -> bool {
    match parsed {
        Err(text) => r matches Err(TransportError::Json(t)) && t@
            == "decode QueryResponse failed: "@ + text@,
        Ok(resp) => if resp.version != PROTOCOL_VERSION {
            r == Err::<Option<ErrorCode>, TransportError>(
                TransportError::QueryError(Some(ErrorCode::ProtocolVersionMismatch)),
            )
        } else {
            r == Ok::<Option<ErrorCode>, TransportError>(
                match resp.status {
                    ResponseStatus::Success => None,
                    ResponseStatus::Error => resp.error,
                },
            )
        },
    }
}

/// What becomes of an answer that was read.
pub fn check_query_response(parsed: Result<WireQueryResponse, String>) -> (r: Result<
    Option<ErrorCode>,
    TransportError,
>)
    ensures
        response_outcome(parsed, r),
{
    match parsed {
        Err(text) => {
            let mut out = "decode QueryResponse failed: ".to_owned();
            out.append(text.as_str());
            Err(TransportError::Json(out))
        },
        Ok(resp) => {
            if resp.version != PROTOCOL_VERSION {
                return Err(TransportError::QueryError(Some(ErrorCode::ProtocolVersionMismatch)));
            }
            match resp.status {
                ResponseStatus::Success => Ok(None),
                ResponseStatus::Error => Ok(resp.error),
            }
        },
    }
}

/// Whether `r` is the error in a frame with an answer, by what `parse` may
/// return.
pub open spec fn reads_response<P: Fn(&[u8]) -> Result<WireQueryResponse, String>>(
    frame: Seq<u8>,
    parse: P,
    r: Result<Option<ErrorCode>, TransportError>,
) -> bool {
    match expected_frame(frame, FrameType::QueryResponse) {
        Err(e) => r == Err::<Option<ErrorCode>, TransportError>(e),
        Ok((_, p)) => exists|b: &[u8], parsed: Result<WireQueryResponse, String>|
            b@ == p && #[trigger] call_ensures(parse, (b,), parsed) && response_outcome(parsed, r),
    }
}

/// The error in a frame with an answer. `parse` reads it as JSON.
pub fn parse_query_response_error_frame<P: Fn(&[u8]) -> Result<WireQueryResponse, String>>(
    frame: &[u8],
    parse: &P,
) -> (r: Result<Option<ErrorCode>, TransportError>)
    requires
        forall|b: &[u8]| #[trigger] call_requires(*parse, (b,)),
    ensures
        reads_response(frame@, *parse, r),
{
    match split_frame(frame, FrameType::QueryResponse) {
        Ok((_, p)) => {
            let parsed = parse(p);
            assert(call_ensures(*parse, (p,), parsed));
            check_query_response(parsed)
        },
        Err(e) => Err(e),
    }
}

// ---------------------------------------------------------------------------
// Laws

/// A frame that the client builds is read back by the other side, with the type
/// and the id that it was built with.
pub proof fn law_client_frames_read_back(frame_type: FrameType, request_id: u64, payload: Seq<u8>)
    requires
        payload.len() <= u32::MAX,
    ensures
        frame_with(frame_type, request_id, payload) matches Ok(b) && expected_frame(b, frame_type)
            == Ok::<(FrameHeader, Seq<u8>), TransportError>(
            (header_for(frame_type, request_id).with_len(payload.len()), payload),
        ),
{
    crate::common::frame::law_frame_reads_back(header_for(frame_type, request_id), payload);
}

/// The reason in a disconnect frame is read back, but for white space at its
/// ends, if it is not longer than a frame can hold.
pub proof fn law_reason_reads_back(request_id: u64, reason: Seq<char>)
    requires
        encode_utf8(reason).len() <= u32::MAX,
    ensures
        ({
            let frame = frame_with(FrameType::Disconnect, request_id, encode_utf8(reason));
            &&& frame is Ok
            &&& expected_frame(frame->Ok_0, FrameType::Disconnect) matches Ok((_, p)) && trimmed(
                text_in(p),
            ) == trimmed(reason)
        }),
{
    law_client_frames_read_back(FrameType::Disconnect, request_id, encode_utf8(reason));
    vstd::utf8::encode_utf8_valid_utf8(reason);
    vstd::utf8::encode_utf8_decode_utf8(reason);
}

/// A node understands the frames that the client builds: a handshake or a query
/// with a payload is read, a query without one is answered, and a heartbeat,
/// where those are expected, keeps the session going.
pub proof fn law_requests_are_understood(request_id: u64, payload: Seq<u8>, heartbeats: bool)
    requires
        payload.len() <= u32::MAX,
    ensures
        step_after_frame(
            frame_with(FrameType::HandshakeRequest, request_id, payload)->Ok_0,
            heartbeats,
        ) == SessionStepView::ParseHandshake(request_id, payload),
        step_after_frame(
            frame_with(FrameType::QueryRequest, request_id, payload)->Ok_0,
            heartbeats,
        ) == (if payload.len() == 0 {
            SessionStepView::Answer(Request::Runtime(request_id))
        } else {
            SessionStepView::ParseQuery(payload)
        }),
        step_after_frame(
            frame_with(FrameType::Heartbeat, request_id, payload)->Ok_0,
            true,
        ) == SessionStepView::Continue,
        step_after_frame(
            frame_with(FrameType::Disconnect, request_id, payload)->Ok_0,
            heartbeats,
        ) == SessionStepView::Disconnected(trimmed(text_in(payload))),
{
    law_client_frames_read_back(FrameType::HandshakeRequest, request_id, payload);
    law_client_frames_read_back(FrameType::QueryRequest, request_id, payload);
    law_client_frames_read_back(FrameType::Heartbeat, request_id, payload);
    law_client_frames_read_back(FrameType::Disconnect, request_id, payload);
}

} // verus!
