//! Laws of what a client sends and of what it makes of replies.

use vstd::prelude::*;
use crate::bytes::{be_value, le_value};
use crate::client::base64::{
    base64_bytes, digit_of, digit_value, digit_values, is_blank, quad, quads,
};
use crate::client::config::config_fault;
use crate::client::kcp_client::{address_seed, conv_after, folded};
use crate::client::reply::{
    belongs_to, disconnect_message, handshake_reply, query_reply, refused, server_message,
    ClientError, DecodeFault,
};
use crate::client::transport::{
    expected_frame, frame_with, handshake_outcome, is_frame, payload_error, payload_fault,
    reads_metadata, reads_response, reads_runtime, reads_snapshot, response_outcome, TransportError,
};
use crate::client::udp_client::{
    chunks_before, deadline_after, frame_datagrams, is_reply, received, receiver_after,
    ReceiverView,
};
use crate::common::config::Config;
use crate::common::error::ErrorCode;
use crate::common::frame::{spec_decode_frame, FrameHeader, FrameType};
use crate::common::message::{HandshakeInfo, QueryResponse as WireQueryResponse};
use crate::common::payload::{metadata_in, runtime_in, snapshot_in, PayloadDecodeError};
use crate::common::reassembly::{groups_after, outcome};
use crate::common::snapshot::{
    snapshot_rebuilt, spec_metadata_hash, HostMetadata, MetadataView, RuntimeSnapshot, RuntimeView,
    ServerGresSnapshot,
};
use crate::common::udp::{chunk_count, spec_decode_single, UdpChunkError};
use crate::laws::wire::law_single_datagram;
use crate::text::{decimal, lowered, quoted, text_in, trimmed};

verus! {

// ---------------------------------------------------------------------------
// Base64

/// The digits of Base64: capital letters, small letters, numerals, plus and slash, in
/// this order, and the sign that stands for none.
pub proof fn law_base64_digits(i: int)
    ensures
        0 <= i < 26 ==> digit_value((65 + i) as u8) == Some(i as u8),
        0 <= i < 26 ==> digit_value((97 + i) as u8) == Some((26 + i) as u8),
        0 <= i < 10 ==> digit_value((48 + i) as u8) == Some((52 + i) as u8),
        digit_value('+' as u8) == Some(62u8),
        digit_value('/' as u8) == Some(63u8),
        digit_value('=' as u8) == Some(64u8),
        0 <= i <= 64 ==> digit_value(digit_of(i)) == Some(i as u8),
        forall|b: u8|
            b < 43 || b == 44 || b == 45 || b == 46 || 57 < b < 61 || 61 < b < 65 || 90 < b < 97
                || b > 122 ==> (#[trigger] digit_value(b)) is None,
{
}

/// White space counts for nothing; any other byte is a digit, or makes the whole
/// unreadable.
pub proof fn law_base64_text(s: Seq<u8>, b: u8)
    ensures
        digit_values(Seq::empty()) == Some(Seq::<u8>::empty()),
        is_blank(b) <==> b == 9 || b == 10 || b == 12 || b == 13 || b == 32,
        is_blank(b) ==> digit_values(s.push(b)) == digit_values(s),
        is_blank(b) ==> base64_bytes(s.push(b)) == base64_bytes(s),
        !is_blank(b) && digit_value(b) is None ==> base64_bytes(s.push(b)) is None,
        !is_blank(b) && digit_value(b) is Some && digit_values(s) is Some ==> digit_values(
            s.push(b),
        ) == Some(digit_values(s)->0.push(digit_value(b)->0)),
        digit_values(s) is None ==> base64_bytes(s.push(b)) is None,
{
    assert(s.push(b).drop_last() =~= s);
}

/// Four digits are three bytes of the same value. With one digit missing they are two
/// bytes, with two missing one; the two in front cannot be missing.
pub proof fn law_base64_group(a: u8, b: u8, c: u8, d: u8)
    requires
        a <= 64 && b <= 64 && c <= 64 && d <= 64,
    ensures
        a < 64 && b < 64 && c < 64 && d < 64 ==> (quad(a, b, c, d) matches Some(q) && q.len() == 3
            && q[0] * 65536 + q[1] * 256 + q[2] == a * 262144 + b * 4096 + c * 64 + d),
        a < 64 && b < 64 && c < 64 && d == 64 ==> (quad(a, b, c, d) matches Some(q) && q.len() == 2
            && q[0] * 256 + q[1] == (a * 4096 + b * 64 + c) / 4),
        a < 64 && b < 64 && c == 64 && d == 64 ==> (quad(a, b, c, d) matches Some(q) && q.len() == 1
            && q[0] == (a * 64 + b) / 16),
        a == 64 || b == 64 || (c == 64 && d != 64) ==> quad(a, b, c, d) is None,
{
}

/// Digits are read four at a time, and none may be left over.
pub proof fn law_base64_groups(v: Seq<u8>, a: u8, b: u8, c: u8, d: u8)
    ensures
        quads(Seq::empty()) == Some(Seq::<u8>::empty()),
        ({
            let r = quads(v + seq![a, b, c, d]);
            let q = quad(a, b, c, d);
            &&& quads(v) is Some && q is Some ==> r == Some(quads(v)->0 + q->0)
            &&& quads(v) is None || q is None ==> r is None
        }),
        v.len() % 4 != 0 ==> quads(v) is None,
    decreases v.len(),
{
    let w = v + seq![a, b, c, d];
    assert(w.take(w.len() - 4) =~= v);
    let n = v.len() as int;
    if n >= 4 {
        law_base64_groups(v.take(n - 4), a, b, c, d);
    }
}

// ---------------------------------------------------------------------------
// Conversation numbers

/// The seed of an address: of an IPv4 address its number, of an IPv6 address its four
/// parts mixed, and either mixed with the port.
pub proof fn law_address_seed(octets: Seq<u8>, port: u16)
    ensures
        octets.len() == 4 ==> address_seed(octets, port) == (be_value(octets) as u32) ^ (
        port as u32),
        octets.len() == 16 ==> address_seed(octets, port) == (port as u32) ^ (le_value(
            octets.subrange(0, 4),
        ) as u32) ^ (le_value(octets.subrange(4, 8)) as u32) ^ (le_value(
            octets.subrange(8, 12),
        ) as u32) ^ (le_value(octets.subrange(12, 16)) as u32),
{
    reveal_with_fuel(folded, 5);
}

/// The next conversation is numbered one higher, and one after the last; none is zero.
pub proof fn law_next_conversation(conv: u32)
    ensures
        conv < u32::MAX ==> conv_after(conv) == conv + 1,
        conv == u32::MAX ==> conv_after(conv) == 1,
        conv_after(conv) != 0,
{
}

// ---------------------------------------------------------------------------
// Configuration

/// What a configuration is refused for, the first of these that holds.
pub proof fn law_client_configuration(c: Config)
    ensures
        ({
            let p = lowered(trimmed(c.connecting.protocol@));
            let protocol = p != "udp"@ && p != "tcp"@;
            let heartbeat = c.connecting.heartbeat_interval == 0;
            let idle = c.connecting.connection_idle_timeout == 0;
            let connections = c.connecting.max_connections == 0;
            let fault = config_fault(c);
            &&& protocol ==> fault == Some(
                "invalid connecting.protocol '"@ + p + "': expected 'udp' or 'tcp'"@,
            )
            &&& !protocol && heartbeat ==> fault == Some(
                "invalid connecting.heartbeat_interval: must be > 0"@,
            )
            &&& !protocol && !heartbeat && idle ==> fault == Some(
                "invalid connecting.connection_idle_timeout: must be > 0"@,
            )
            &&& !protocol && !heartbeat && !idle && connections ==> fault == Some(
                "invalid connecting.max_connections: must be > 0"@,
            )
            &&& fault is None <==> !protocol && !heartbeat && !idle && !connections
        }),
{
}

// ---------------------------------------------------------------------------
// Frames

/// A frame of the asked type, number and payload is built, unless the payload is too
/// long for one.
pub proof fn law_built_frame(
    t: FrameType,
    id: u64,
    payload: Seq<u8>,
    r: Result<Vec<u8>, TransportError>,
)
    requires
        is_frame(r, frame_with(t, id, payload)),
    ensures
        payload.len() <= 4294967295 ==> r is Ok && (spec_decode_frame(r->Ok_0@) matches Ok((h, p))
            && h.version == 1 && h.frame_type == t && h.request_id == id && p == payload),
        payload.len() > 4294967295 ==> (r matches Err(TransportError::Payload(s)) && s@
            == "payload too large for frame: "@ + decimal(payload.len()) + " bytes"@),
{
    if payload.len() <= u32::MAX {
        crate::common::frame::law_frame_reads_back(
            crate::client::transport::header_for(t, id),
            payload,
        );
    }
}

/// A frame is taken apart if it is of the expected type.
pub proof fn law_expected_frame(frame: Seq<u8>, expected: FrameType)
    ensures
        spec_decode_frame(frame) matches Err(e) ==> expected_frame(frame, expected) == Err::<
            (FrameHeader, Seq<u8>),
            _,
        >(TransportError::Frame(e)),
        spec_decode_frame(frame) matches Ok((h, p)) ==> h.frame_type == expected ==> expected_frame(
            frame,
            expected,
        ) == Ok::<_, TransportError>((h, p)),
        spec_decode_frame(frame) matches Ok((h, p)) ==> h.frame_type != expected ==> expected_frame(
            frame,
            expected,
        ) == Err::<(FrameHeader, Seq<u8>), _>(
            TransportError::UnexpectedFrameType { expected, got: h.frame_type },
        ),
{
}

/// What is read from a frame is what its payload holds; a frame of another type, or one
/// whose payload holds nothing, is refused.
pub proof fn law_payload_frames(
    frame: Seq<u8>,
    h: FrameHeader,
    p: Seq<u8>,
    m: Result<HostMetadata, TransportError>,
    r: Result<RuntimeSnapshot, TransportError>,
    s: Result<ServerGresSnapshot, TransportError>,
)
    requires
        spec_decode_frame(frame) is Ok,
        spec_decode_frame(frame)->Ok_0 == (h, p),
        reads_metadata(frame, m),
        reads_runtime(frame, r),
        reads_snapshot(frame, s),
    ensures
        m is Ok <==> h.frame_type == FrameType::MetadataPayload && metadata_in(p) is Some,
        m matches Ok(x) ==> metadata_in(p) == Some(x@),
        r is Ok <==> h.frame_type == FrameType::RuntimePayload && runtime_in(p) is Some,
        r matches Ok(x) ==> runtime_in(p) == Some(x@),
        s is Ok <==> h.frame_type == FrameType::DataPayload && snapshot_in(p) is Some,
        s matches Ok(x) ==> snapshot_in(p) == Some(x@),
{
}

/// A handshake of this version is taken as it is, one of another is refused as such, and
/// what cannot be read with the reason.
pub proof fn law_handshake_is_checked(
    info: HandshakeInfo,
    text: String,
    r: Result<HandshakeInfo, TransportError>,
)
    ensures
        handshake_outcome(Ok(info), r) && info.version == 1 ==> r == Ok::<_, TransportError>(info),
        handshake_outcome(Ok(info), r) && info.version != 1 ==> r == Err::<HandshakeInfo, _>(
            TransportError::QueryError(Some(ErrorCode::ProtocolVersionMismatch)),
        ),
        handshake_outcome(Err(text), r) ==> (r matches Err(TransportError::Json(t)) && t@
            == "decode HandshakeInfo failed: "@ + text@),
{
}

/// An answer of this version says its error, if its status is one; an answer of another
/// version is refused as such, and what cannot be read with the reason.
pub proof fn law_response_is_checked(
    resp: WireQueryResponse,
    text: String,
    r: Result<Option<ErrorCode>, TransportError>,
)
    ensures
        response_outcome(Ok(resp), r) && resp.version == 1 && resp.status is Success ==> r == Ok::<
            Option<ErrorCode>,
            TransportError,
        >(None),
        response_outcome(Ok(resp), r) && resp.version == 1 && resp.status is Error ==> r == Ok::<
            _,
            TransportError,
        >(resp.error),
        response_outcome(Ok(resp), r) && resp.version != 1 ==> r == Err::<Option<ErrorCode>, _>(
            TransportError::QueryError(Some(ErrorCode::ProtocolVersionMismatch)),
        ),
        response_outcome(Err(text), r) ==> (r matches Err(TransportError::Json(t)) && t@
            == "decode QueryResponse failed: "@ + text@),
{
}

// ---------------------------------------------------------------------------
// Replies

/// What is said of a node that refused or left.
pub proof fn law_refusal_texts(code: ErrorCode, wanted: Seq<char>, reason: Seq<char>)
    ensures
        server_message(Some(code), wanted) == code.spec_message(),
        server_message(None, wanted) == "server returned empty QueryResponse instead of "@ + wanted,
        reason.len() == 0 ==> disconnect_message(reason) == "peer disconnected"@,
        reason.len() > 0 ==> disconnect_message(reason) == "peer disconnected: "@ + reason,
{
}

/// The reply to a query: the runtime part in it, put together with the metadata. A node
/// that leaves is an error with its reason, and bytes that are no frame are an error as
/// such.
pub proof fn law_query_reply<P: Fn(&[u8]) -> Result<WireQueryResponse, String>>(
    frame: Seq<u8>,
    metadata: MetadataView,
    parse: P,
    r: Result<ServerGresSnapshot, ClientError>,
)
    requires
        query_reply(frame, metadata, parse, r),
    ensures
        spec_decode_frame(frame) matches Err(e) ==> r == Err::<ServerGresSnapshot, _>(
            ClientError::Transport(TransportError::Frame(e)),
        ),
        spec_decode_frame(frame) matches Ok((h, p)) ==> {
            let t = h.frame_type;
            &&& t == FrameType::RuntimePayload ==> (match runtime_in(p) {
                Some(runtime) => r matches Ok(s) && s@ == snapshot_rebuilt(runtime, metadata),
                None => r matches Err(ClientError::Transport(TransportError::Payload(_))),
            })
            &&& t == FrameType::Disconnect ==> (r matches Err(ClientError::Server(s)) && s@
                == disconnect_message(trimmed(text_in(p))))
            &&& t == FrameType::QueryResponse ==> r is Err
            &&& t != FrameType::RuntimePayload && t != FrameType::Disconnect && t
                != FrameType::QueryResponse ==> r == Err::<ServerGresSnapshot, _>(
                ClientError::Transport(
                    TransportError::UnexpectedFrameType {
                        expected: FrameType::RuntimePayload,
                        got: t,
                    },
                ),
            )
        },
{
    let read = choose|read: Result<RuntimeSnapshot, TransportError>| #[trigger]
        reads_runtime(frame, read) && match read {
            Ok(runtime) => r matches Ok(s) && s@ == snapshot_rebuilt(runtime@, metadata),
            Err(fault) => r matches Err(e) && refused(
                frame,
                FrameType::RuntimePayload,
                "RuntimePayload"@,
                true,
                parse,
                fault,
                e,
            ),
        };
}

/// The reply to a handshake: the metadata in it.
pub proof fn law_handshake_reply<P: Fn(&[u8]) -> Result<WireQueryResponse, String>>(
    frame: Seq<u8>,
    parse: P,
    r: Result<HostMetadata, ClientError>,
)
    requires
        handshake_reply(frame, parse, r),
    ensures
        spec_decode_frame(frame) matches Err(e) ==> r == Err::<HostMetadata, _>(
            ClientError::Transport(TransportError::Frame(e)),
        ),
        spec_decode_frame(frame) matches Ok((h, p)) ==> {
            let t = h.frame_type;
            &&& t == FrameType::MetadataPayload ==> (match metadata_in(p) {
                Some(m) => r matches Ok(x) && x@ == m,
                None => r matches Err(ClientError::Transport(TransportError::Payload(_))),
            })
            &&& t == FrameType::QueryResponse ==> r is Err
            &&& t != FrameType::MetadataPayload && t != FrameType::QueryResponse ==> r == Err::<
                HostMetadata,
                _,
            >(
                ClientError::Transport(
                    TransportError::UnexpectedFrameType {
                        expected: FrameType::MetadataPayload,
                        got: t,
                    },
                ),
            )
        },
{
    let read = choose|read: Result<HostMetadata, TransportError>| #[trigger]
        reads_metadata(frame, read) && match read {
            Ok(m) => r == Ok::<HostMetadata, ClientError>(m),
            Err(fault) => r matches Err(e) && refused(
                frame,
                FrameType::MetadataPayload,
                "MetadataPayload"@,
                false,
                parse,
                fault,
                e,
            ),
        };
}

/// A runtime part belongs to the metadata with its hash; one without a hash belongs to
/// any.
pub proof fn law_parts_that_belong(r: RuntimeView, m: MetadataView)
    ensures
        r.metadata_hash == 0 ==> belongs_to(r, m),
        r.metadata_hash == spec_metadata_hash(m) ==> belongs_to(r, m),
        r.metadata_hash != 0 && r.metadata_hash != spec_metadata_hash(m) ==> !belongs_to(r, m),
{
}

// ---------------------------------------------------------------------------
// Datagrams

/// A frame that fits goes out in one datagram, from which it is taken unchanged; a
/// longer one in its chunks.
pub proof fn law_frame_in_datagrams(frame: Seq<u8>, max_payload: usize)
    requires
        0 < frame.len() <= 65535,
        spec_decode_frame(frame) is Ok,
        256 <= max_payload,
    ensures
        frame.len() <= max_payload ==> (frame_datagrams(frame, max_payload) matches Ok(v) && v.len()
            == 1 && spec_decode_single(v[0]) == Ok::<Option<Seq<u8>>, UdpChunkError>(Some(frame))),
        frame.len() > max_payload ==> (frame_datagrams(frame, max_payload) matches Ok(v) && v.len()
            == chunk_count(frame.len(), max_payload as nat) && (forall|i: int|
            0 <= i < v.len() ==> (#[trigger] v[i]).skip(32) == crate::common::udp::chunk(
                frame,
                max_payload as nat,
                i,
            ))),
{
    if frame.len() <= max_payload {
        law_single_datagram(frame);
        crate::common::udp::law_single_chunk_reads_back(frame);
    } else {
        let m = max_payload as nat;
        let n = chunk_count(frame.len(), m);
        crate::common::udp::lemma_chunk_bounds(frame.len(), m, 0);
        let header = spec_decode_frame(frame)->Ok_0;
        let v = frame_datagrams(frame, max_payload)->Ok_0;
        assert forall|i: int| 0 <= i < v.len() implies (#[trigger] v[i]).skip(32)
            == crate::common::udp::chunk(frame, m, i) by {
            let h = crate::common::udp::chunk_header(frame, header.0, m, i);
            crate::laws::wire::law_chunk_header_layout(h);
            assert(v[i].skip(32) =~= crate::common::udp::chunk(frame, m, i));
        }
    }
}

/// A frame answers a request if it is of its number; any other is passed over.
pub proof fn law_reply_to_a_request(frame: Seq<u8>, id: u64)
    ensures
        spec_decode_frame(frame) matches Ok((h, _)) ==> h.request_id == id ==> is_reply(frame, id)
            == Ok::<Option<Seq<u8>>, ClientError>(Some(frame)),
        spec_decode_frame(frame) matches Ok((h, _)) ==> h.request_id != id ==> is_reply(frame, id)
            == Ok::<Option<Seq<u8>>, ClientError>(None),
        spec_decode_frame(frame) matches Err(e) ==> is_reply(frame, id) == Err::<
            Option<Seq<u8>>,
            ClientError,
        >(ClientError::Decode(DecodeFault::Frame(e))),
{
}

/// A deadline is a time ahead of now, or the last there is.
pub proof fn law_deadline(now_ms: u64, timeout_ms: u64)
    ensures
        now_ms + timeout_ms <= u64::MAX ==> deadline_after(now_ms, timeout_ms) == now_ms
            + timeout_ms,
        now_ms + timeout_ms > u64::MAX ==> deadline_after(now_ms, timeout_ms) == u64::MAX,
        crate::server::udp_transport::deadline_after(now_ms, timeout_ms) == deadline_after(
            now_ms,
            timeout_ms,
        ),
{
}

/// A chunk is put with those that came before, and the first one sets the deadline; any
/// other datagram leaves them as they are. What the receiver waits for does not change.
pub proof fn law_receiver_keeps(s: ReceiverView, datagram: Seq<u8>, now_ms: u64)
    ensures
        ({
            let t = receiver_after(s, datagram, now_ms);
            &&& t.request_id == s.request_id && t.timeout_ms == s.timeout_ms && t.deadline_ms
                == s.deadline_ms
            &&& spec_decode_single(datagram) != Ok::<Option<Seq<u8>>, UdpChunkError>(None) ==> t
                == s
            &&& spec_decode_single(datagram) == Ok::<Option<Seq<u8>>, UdpChunkError>(None) ==> {
                &&& t.chunks is Some
                &&& s.chunks matches Some((groups, deadline)) ==> t.chunks == Some(
                    (groups_after(groups, datagram), deadline),
                )
                &&& s.chunks is None ==> t.chunks == Some(
                    (groups_after(Map::empty(), datagram), deadline_after(now_ms, s.timeout_ms)),
                )
            }
        }),
{
}

/// A datagram that cannot be read is an error. One with a whole frame is looked at at
/// once, and a chunk when it is the last of its frame.
pub proof fn law_receiver_gives(s: ReceiverView, datagram: Seq<u8>, now_ms: u64)
    ensures
        spec_decode_single(datagram) matches Err(e) ==> received(s, datagram, now_ms) == Err::<
            Option<Seq<u8>>,
            ClientError,
        >(ClientError::Decode(DecodeFault::Chunk(e))),
        spec_decode_single(datagram) matches Ok(Some(frame)) ==> received(s, datagram, now_ms)
            == is_reply(frame, s.request_id),
        spec_decode_single(datagram) matches Ok(None) ==> {
            let groups = if s.chunks is Some {
                chunks_before(s, now_ms).0
            } else {
                Map::empty()
            };
            match outcome(groups, datagram) {
                Err(e) => received(s, datagram, now_ms) == Err::<Option<Seq<u8>>, ClientError>(
                    ClientError::Decode(DecodeFault::Chunk(e)),
                ),
                Ok(None) => received(s, datagram, now_ms) == Ok::<Option<Seq<u8>>, ClientError>(
                    None,
                ),
                Ok(Some(frame)) => received(s, datagram, now_ms) == is_reply(frame, s.request_id),
            }
        },
{
}

/// What is said of a payload that holds nothing.
pub proof fn law_payload_faults(
    p: Seq<u8>,
    what: Seq<char>,
    e: TransportError,
    fault: PayloadDecodeError,
)
    ensures
        payload_error(p, what, e) ==> e is Payload,
        payload_error(p, what, e) && p.len() == 0 ==> (e matches TransportError::Payload(t) && t@
            == "decode "@ + what + " payload failed: "@ + "Empty"@),
        fault matches PayloadDecodeError::DeserializeFailed(text) ==> payload_fault(what, fault)
            == "decode "@ + what + " payload failed: "@ + ("DeserializeFailed("@ + quoted(text@)
            + ")"@),
{
}

/// A refusal in place of the asked payload: its error, by its text, if the refusal is of this
/// version and can be read.
pub proof fn law_refused_query<P: Fn(&[u8]) -> Result<WireQueryResponse, String>>(
    frame: Seq<u8>,
    h: FrameHeader,
    p: Seq<u8>,
    metadata: MetadataView,
    parse: P,
    code: ErrorCode,
    r: Result<ServerGresSnapshot, ClientError>,
)
    requires
        query_reply(frame, metadata, parse, r),
        spec_decode_frame(frame) is Ok,
        spec_decode_frame(frame)->Ok_0 == (h, p),
        h.frame_type == FrameType::QueryResponse,
        forall|b: &[u8], parsed: Result<WireQueryResponse, String>|
            b@ == p && #[trigger] call_ensures(parse, (b,), parsed) ==> (parsed matches Ok(resp)
                && resp.version == 1 && resp.status is Error && resp.error == Some(code)),
    ensures
        r matches Err(ClientError::Server(s)) && s@ == code.spec_message(),
{
    let read = choose|read: Result<RuntimeSnapshot, TransportError>| #[trigger]
        reads_runtime(frame, read) && match read {
            Ok(runtime) => r matches Ok(s) && s@ == snapshot_rebuilt(runtime@, metadata),
            Err(fault) => r matches Err(e) && refused(
                frame,
                FrameType::RuntimePayload,
                "RuntimePayload"@,
                true,
                parse,
                fault,
                e,
            ),
        };
    let fault = read->Err_0;
    let e = r->Err_0;
    let c = choose|c: Result<Option<ErrorCode>, TransportError>| #[trigger]
        reads_response(frame, parse, c) && match c {
            Err(t) => e == ClientError::Transport(t),
            Ok(x) => e matches ClientError::Server(s) && s@ == server_message(
                x,
                "RuntimePayload"@,
            ),
        };
    let (b, parsed) = choose|b: &[u8], parsed: Result<WireQueryResponse, String>|
        b@ == p && #[trigger] call_ensures(parse, (b,), parsed) && response_outcome(parsed, c);
    assert(call_ensures(parse, (b,), parsed));
}

} // verus!
