//! Sessions over a stream: TCP, and KCP with its heartbeats and time limit.

use vstd::prelude::*;
use vstd::utf8::encode_utf8;
use crate::common::frame::{frame_bytes, spec_decode_frame, FrameHeader, FrameType};
use crate::common::frame::FrameHeaderError;
use crate::server::transport::{
    decode_transport_frame, encode_transport_frame, header_for, request_step, spec_request_step,
    Request, RequestStep, TransportError,
};
use crate::text::{bytes_of, lossy_text, text_in, trim, trimmed};

verus! {

/// What a session over a stream does next.
#[derive(Debug)]
pub enum SessionStep {
    /// It ends: the peer has closed the stream.
    Closed,
    /// It ends: the peer has said why.
    Disconnected(String),
    /// It ends with an error.
    Failed(TransportError),
    /// It sends a last frame and ends with a timeout.
    TimedOut(Vec<u8>),
    /// It reads the next frame.
    Continue,
    /// It reads the payload as a handshake request, to answer with the id.
    ParseHandshake(u64, Vec<u8>),
    /// It reads the payload as a query request.
    ParseQuery(Vec<u8>),
    /// It answers the request.
    Answer(Request),
}

pub enum SessionStepView {
    Closed,
    Disconnected(Seq<char>),
    Failed(TransportError),
    TimedOut(Seq<u8>),
    Continue,
    ParseHandshake(u64, Seq<u8>),
    ParseQuery(Seq<u8>),
    Answer(Request),
}

impl View for SessionStep {
    type V = SessionStepView;

    open spec fn view(&self) -> SessionStepView {
        match self {
            SessionStep::Closed => SessionStepView::Closed,
            SessionStep::Disconnected(s) => SessionStepView::Disconnected(s@),
            SessionStep::Failed(e) => SessionStepView::Failed(*e),
            SessionStep::TimedOut(f) => SessionStepView::TimedOut(f@),
            SessionStep::Continue => SessionStepView::Continue,
            SessionStep::ParseHandshake(id, p) => SessionStepView::ParseHandshake(*id, p@),
            SessionStep::ParseQuery(p) => SessionStepView::ParseQuery(p@),
            SessionStep::Answer(r) => SessionStepView::Answer(*r),
        }
    }
}

/// The frame by which a node says that it disconnects.
pub open spec fn disconnect_bytes(reason: Seq<char>) -> Seq<u8> {
    frame_bytes(header_for(FrameType::Disconnect, 0), encode_utf8(reason))
}

/// The frame by which a node says that it disconnects.
pub fn disconnect_frame(reason: &str) -> (r: Vec<u8>)
    ensures
        r@ == disconnect_bytes(reason@),
{
    let payload = bytes_of(reason);
    encode_transport_frame(FrameType::Disconnect, 0, payload.as_slice())
}

/// The step after a frame. Only where `heartbeats` is set are they expected.
pub open spec fn step_after_frame(frame: Seq<u8>, heartbeats: bool) -> SessionStepView {
    match spec_decode_frame(frame) {
        Err(e) => SessionStepView::Failed(TransportError::FrameDecode(e)),
        Ok((header, payload)) => if heartbeats && header.frame_type == FrameType::Heartbeat {
            SessionStepView::Continue
        } else if header.frame_type == FrameType::Disconnect {
            SessionStepView::Disconnected(trimmed(text_in(payload)))
        } else {
            match spec_request_step(header, payload) {
                RequestStep::ParseHandshake => SessionStepView::ParseHandshake(
                    header.request_id,
                    payload,
                ),
                RequestStep::ParseQuery => SessionStepView::ParseQuery(payload),
                RequestStep::Known(request) => SessionStepView::Answer(request),
                RequestStep::Unexpected(t) => SessionStepView::Failed(
                    TransportError::UnexpectedFrameType(t),
                ),
            }
        },
    }
}

fn after_frame(frame: &[u8], heartbeats: bool) -> (r: SessionStep)
    ensures
        r@ == step_after_frame(frame@, heartbeats),
{
    let decoded = match decode_transport_frame(frame) {
        Ok(d) => d,
        Err(e) => {
            return SessionStep::Failed(e);
        },
    };
    if heartbeats && decoded.header.frame_type == FrameType::Heartbeat {
        return SessionStep::Continue;
    }
    if decoded.header.frame_type == FrameType::Disconnect {
        return SessionStep::Disconnected(trim(lossy_text(decoded.payload.as_slice()).as_str()));
    }
    match request_step(decoded.header, decoded.payload.as_slice()) {
        RequestStep::ParseHandshake => SessionStep::ParseHandshake(
            decoded.header.request_id,
            decoded.payload,
        ),
        RequestStep::ParseQuery => SessionStep::ParseQuery(decoded.payload),
        RequestStep::Known(request) => SessionStep::Answer(request),
        RequestStep::Unexpected(t) => SessionStep::Failed(TransportError::UnexpectedFrameType(t)),
    }
}

/// What a TCP session does with a frame.
pub fn tcp_step(frame: &[u8]) -> (r: SessionStep)
    ensures
        r@ == step_after_frame(frame@, false),
{
    after_frame(frame, false)
}

/// What a KCP session has read.
#[derive(Debug)]
pub enum KcpRead {
    /// Nothing, for as long as a session may be idle.
    TimedOut,
    /// These bytes; none if the peer has closed.
    Bytes(Vec<u8>),
}

/// What a KCP session does with what it has read.
pub fn kcp_step(read: &KcpRead) -> (r: SessionStep)
    ensures
        r@ == (match read {
            KcpRead::TimedOut => SessionStepView::TimedOut(
                disconnect_bytes("server idle timeout"@),
            ),
            KcpRead::Bytes(b) => if b@.len() == 0 {
                SessionStepView::Closed
            } else {
                step_after_frame(b@, true)
            },
        }),
{
    match read {
        KcpRead::TimedOut => SessionStep::TimedOut(disconnect_frame("server idle timeout")),
        KcpRead::Bytes(b) => {
            if b.len() == 0 {
                SessionStep::Closed
            } else {
                after_frame(b.as_slice(), true)
            }
        },
    }
}

/// Whether a node takes another KCP session: the frame to refuse it with if
/// not.
pub fn accept_session(active: usize, max_connections: usize) -> (r: Option<Vec<u8>>)
    ensures
        match r {
            None => active < max_connections,
            Some(frame) => active >= max_connections && frame@ == disconnect_bytes(
                "server max connections reached"@,
            ),
        },
{
    if active >= max_connections {
        Some(disconnect_frame("server max connections reached"))
    } else {
        None
    }
}

/// How many payload bytes follow the header of a frame on a stream.
pub fn payload_len_behind(header: &[u8]) -> (r: Result<usize, FrameHeaderError>)
    ensures
        match FrameHeader::spec_decode(header@) {
            Ok(h) => r == Ok::<usize, FrameHeaderError>(h.payload_len as usize),
            Err(e) => r == Err::<usize, FrameHeaderError>(e),
        },
{
    match FrameHeader::decode(header) {
        Ok(h) => Ok(h.payload_len as usize),
        Err(e) => Err(e),
    }
}

/// A disconnect frame is understood as one, with its reason but for white
/// space at the ends, if the reason is not longer than a frame can hold.
pub proof fn law_disconnect_is_understood(reason: Seq<char>, heartbeats: bool)
    requires
        encode_utf8(reason).len() <= u32::MAX,
    ensures
        step_after_frame(disconnect_bytes(reason), heartbeats) == SessionStepView::Disconnected(
            trimmed(reason),
        ),
{
    vstd::utf8::encode_utf8_valid_utf8(reason);
    vstd::utf8::encode_utf8_decode_utf8(reason);
    crate::common::frame::law_frame_reads_back(
        header_for(FrameType::Disconnect, 0),
        encode_utf8(reason),
    );
}

} // verus!
