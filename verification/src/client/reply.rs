//! What a client makes of the replies of a node.

use vstd::prelude::*;
use crate::client::transport::{
    carries, expected_frame, parse_data_payload_frame, parse_disconnect_reason_frame,
    parse_metadata_payload_frame, parse_query_response_error_frame, parse_runtime_payload_frame,
    reads_metadata, reads_response, reads_runtime, reads_snapshot, TransportError,
};
use crate::common::error::ErrorCode;
use crate::common::frame::{
    decode_frame, frame_bytes, law_frame_reads_back, spec_decode_frame, FrameDecodeError,
    FrameHeaderError, FrameType,
};
use crate::common::message::QueryResponse as WireQueryResponse;
use crate::common::payload::{metadata_archive, runtime_archive, snapshot_archive};
use crate::common::snapshot::{
    distinct_indices, law_parts_rebuild_the_snapshot, metadata_of, runtime_of, snapshot_rebuilt,
    spec_metadata_hash, without_commands, HostMetadata, MetadataView, RuntimeSnapshot, RuntimeView,
    ServerGresSnapshot, SnapshotView,
};
use crate::common::udp::UdpChunkError;
use crate::server::cache::EntryView;
use crate::server::transport::{header_for, reply, Request};
use crate::text::{lossy_text, text_in, trim, trimmed};

verus! {

/// What could not be read.
#[derive(Debug, Clone, PartialEq, Eq)]
pub enum DecodeFault {
    Header(FrameHeaderError),
    Frame(FrameDecodeError),
    Chunk(UdpChunkError),
    /// What could not be put in datagrams.
    Encode(&'static str, UdpChunkError),
}

/// Why a node was not reached or not understood.
#[derive(Debug, Clone, PartialEq, Eq)]
pub enum ClientError {
    Io(String),
    Server(String),
    Decode(DecodeFault),
    Transport(TransportError),
    /// What was waited for in vain.
    Timeout(&'static str),
}

pub type TcpClientError = ClientError;

pub type UdpClientError = ClientError;

pub type KcpClientError = ClientError;

/// The message for an answer that carries an error, or unexpectedly none.
pub open spec fn server_message(code: Option<ErrorCode>, wanted: Seq<char>) -> Seq<char> {
    match code {
        Some(c) => c.spec_message(),
        None => "server returned empty QueryResponse instead of "@ + wanted,
    }
}

/// The message for a disconnect.
pub open spec fn disconnect_message(reason: Seq<char>) -> Seq<char> {
    if reason.len() == 0 {
        "peer disconnected"@
    } else {
        "peer disconnected: "@ + reason
    }
}

fn server_error(code: Option<ErrorCode>, wanted: &str) -> (r: ClientError)
    ensures
        r matches ClientError::Server(s) && s@ == server_message(code, wanted@),
{
    match code {
        Some(c) => ClientError::Server(c.message().to_owned()),
        None => {
            let mut out = "server returned empty QueryResponse instead of ".to_owned();
            out.append(wanted);
            ClientError::Server(out)
        },
    }
}

fn disconnect_error(reason: &str) -> (r: ClientError)
    ensures
        r matches ClientError::Server(s) && s@ == disconnect_message(reason@),
{
    if reason.is_empty() {
        ClientError::Server("peer disconnected".to_owned())
    } else {
        let mut out = "peer disconnected: ".to_owned();
        out.append(reason);
        ClientError::Server(out)
    }
}

/// Whether `e` is the error for a frame that came in place of one of type
/// `wanted`, called `name`: the error in an answer, the reason of a disconnect
/// where `disconnects` are told apart, or what is wrong with the frame.
pub open spec fn refused<P: Fn(&[u8]) -> Result<WireQueryResponse, String>>(
    frame: Seq<u8>,
    wanted: FrameType,
    name: Seq<char>,
    disconnects: bool,
    parse: P,
    fault: TransportError,
    e: ClientError,
) -> bool {
    if fault == (TransportError::UnexpectedFrameType {
        expected: wanted,
        got: FrameType::QueryResponse,
    }) {
        exists|code: Result<Option<ErrorCode>, TransportError>| #[trigger]
            reads_response(frame, parse, code) && match code {
                Err(t) => e == ClientError::Transport(t),
                Ok(c) => e matches ClientError::Server(s) && s@ == server_message(c, name),
            }
    } else if disconnects && fault == (TransportError::UnexpectedFrameType {
        expected: wanted,
        got: FrameType::Disconnect,
    }) {
        e matches ClientError::Server(s) && s@ == disconnect_message(
            match expected_frame(frame, FrameType::Disconnect) {
                Ok((_, p)) => trimmed(text_in(p)),
                Err(_) => Seq::empty(),
            },
        )
    } else {
        e == ClientError::Transport(fault)
    }
}

fn refuse<P: Fn(&[u8]) -> Result<WireQueryResponse, String>>(
    frame: &[u8],
    wanted: FrameType,
    name: &str,
    disconnects: bool,
    parse: &P,
    fault: TransportError,
) -> (e: ClientError)
    requires
        forall|b: &[u8]| #[trigger] call_requires(*parse, (b,)),
    ensures
        refused(frame@, wanted, name@, disconnects, *parse, fault, e),
{
    match fault {
        TransportError::UnexpectedFrameType { expected, got } => {
            if expected == wanted && got == FrameType::QueryResponse {
                let code = parse_query_response_error_frame(frame, parse);
                assert(reads_response(frame@, *parse, code));
                return match code {
                    Ok(c) => server_error(c, name),
                    Err(t) => ClientError::Transport(t),
                };
            }
            if disconnects && expected == wanted && got == FrameType::Disconnect {
                let reason = match parse_disconnect_reason_frame(frame) {
                    Ok(s) => s,
                    Err(_) => {
                        let none = String::new();
                        assert(none@ =~= Seq::empty());
                        none
                    },
                };
                return disconnect_error(reason.as_str());
            }
            ClientError::Transport(TransportError::UnexpectedFrameType { expected, got })
        },
        other => ClientError::Transport(other),
    }
}

/// Whether `r` is what a client makes of the reply to a handshake.
pub open spec fn handshake_reply<P: Fn(&[u8]) -> Result<WireQueryResponse, String>>(
    frame: Seq<u8>,
    parse: P,
    r: Result<HostMetadata, ClientError>,
) -> bool {
    exists|read: Result<HostMetadata, TransportError>| #[trigger]
        reads_metadata(frame, read) && match read {
            Ok(m) => r == Ok::<HostMetadata, ClientError>(m),
            Err(fault) => r matches Err(e) && refused(
                frame,
                FrameType::MetadataPayload,
                "MetadataPayload"@,
                false,
                parse,
                fault,
                e,
            ),
        }
}

/// The metadata in the reply to a handshake.
pub fn parse_handshake_reply<P: Fn(&[u8]) -> Result<WireQueryResponse, String>>(
    frame: &[u8],
    parse: &P,
) -> (r: Result<HostMetadata, ClientError>)
    requires
        forall|b: &[u8]| #[trigger] call_requires(*parse, (b,)),
    ensures
        handshake_reply(frame@, *parse, r),
        forall|m: MetadataView| #[trigger]
            metadata_archive(m) is Some && carries(
                frame@,
                FrameType::MetadataPayload,
                metadata_archive(m)->0,
            ) ==> (r matches Ok(x) && x@ == m),
{
    let read = parse_metadata_payload_frame(frame);
    assert(reads_metadata(frame@, read));
    match read {
        Ok(m) => Ok(m),
        Err(fault) => Err(
            refuse(frame, FrameType::MetadataPayload, "MetadataPayload", false, parse, fault),
        ),
    }
}

/// Whether `r` is what a client makes of the reply to a query: the snapshot
/// that the runtime part and the metadata make up.
pub open spec fn query_reply<P: Fn(&[u8]) -> Result<WireQueryResponse, String>>(
    frame: Seq<u8>,
    metadata: MetadataView,
    parse: P,
    r: Result<ServerGresSnapshot, ClientError>,
) -> bool {
    exists|read: Result<RuntimeSnapshot, TransportError>| #[trigger]
        reads_runtime(frame, read) && match read {
            Ok(runtime) => r matches Ok(s) && s@ == snapshot_rebuilt(runtime@, metadata),
            Err(fault) => r matches Err(e) && refused(
                frame,
                FrameType::RuntimePayload,
                "RuntimePayload"@,
                true,
                parse,
                fault,
                e,
            ),
        }
}

/// Whether a frame is the reply of a node to a query, made from a snapshot.
pub open spec fn answers_with(frame: Seq<u8>, s: SnapshotView) -> bool {
    exists|id: u64, e: EntryView| #[trigger]
        reply(Request::Runtime(id), Ok::<EntryView, ErrorCode>(e)) matches Some((t, p))
            && e.snapshot == s && frame == frame_bytes(header_for(t, id), p)
}

/// The reply of a node to a query carries the runtime part of its snapshot, for
/// the client to read.
pub proof fn law_reply_carries_the_archive(frame: Seq<u8>, s: SnapshotView)
    requires
        answers_with(frame, s),
    ensures
        runtime_archive(runtime_of(s)) is Some,
        carries(frame, FrameType::RuntimePayload, runtime_archive(runtime_of(s))->0),
{
    let (id, e) = choose|id: u64, e: EntryView| #[trigger]
        reply(Request::Runtime(id), Ok::<EntryView, ErrorCode>(e)) matches Some((t, p))
            && e.snapshot == s && frame == frame_bytes(header_for(t, id), p);
    let (t, p) = reply(Request::Runtime(id), Ok::<EntryView, ErrorCode>(e))->0;
    law_frame_reads_back(header_for(t, id), p);
}

/// The snapshot in the reply to a query. Of the snapshot that a node has
/// replied from, all comes back but the commands.
pub fn parse_query_reply<P: Fn(&[u8]) -> Result<WireQueryResponse, String>>(
    frame: &[u8],
    metadata: &HostMetadata,
    parse: &P,
) -> (r: Result<ServerGresSnapshot, ClientError>)
    requires
        forall|b: &[u8]| #[trigger] call_requires(*parse, (b,)),
    ensures
        query_reply(frame@, metadata@, *parse, r),
        forall|m: RuntimeView| #[trigger]
            runtime_archive(m) is Some && carries(
                frame@,
                FrameType::RuntimePayload,
                runtime_archive(m)->0,
            ) ==> (r matches Ok(x) && x@ == snapshot_rebuilt(m, metadata@)),
        forall|s: SnapshotView| #[trigger]
            answers_with(frame@, s) && distinct_indices(s) && metadata@ == metadata_of(s) ==> (
            r matches Ok(x) && x@ == without_commands(s)),
{
    proof {
        assert forall|s: SnapshotView| #[trigger]
            answers_with(frame@, s) && distinct_indices(s) implies carries(
            frame@,
            FrameType::RuntimePayload,
            runtime_archive(runtime_of(s))->0,
        ) && runtime_archive(runtime_of(s)) is Some && snapshot_rebuilt(
            runtime_of(s),
            metadata_of(s),
        ) == without_commands(s) by {
            law_reply_carries_the_archive(frame@, s);
            law_parts_rebuild_the_snapshot(s);
        }
    }
    let read = parse_runtime_payload_frame(frame);
    assert(reads_runtime(frame@, read));
    match read {
        Ok(runtime) => Ok(runtime.to_snapshot(metadata)),
        Err(fault) => Err(
            refuse(frame, FrameType::RuntimePayload, "RuntimePayload", true, parse, fault),
        ),
    }
}

/// What a client does with the reply to a query over a stream.
#[derive(Debug)]
pub enum StreamReply {
    Snapshot(ServerGresSnapshot),
    /// The metadata is outdated: get it anew, then put the two together.
    RefreshMetadata(RuntimeSnapshot),
    Failed(ClientError),
}

/// Whether metadata is that to which a runtime part belongs. A runtime part
/// without a hash goes with any.
pub open spec fn belongs_to(r: RuntimeView, m: MetadataView) -> bool {
    r.metadata_hash == 0 || r.metadata_hash == spec_metadata_hash(m)
}

/// What a client does with the reply to a query over a stream. Of the snapshot
/// that a node has replied from, all comes back but the commands, unless the
/// metadata is outdated.
pub fn stream_reply<P: Fn(&[u8]) -> Result<WireQueryResponse, String>>(
    frame: &[u8],
    metadata: &HostMetadata,
    parse: &P,
) -> (r: StreamReply)
    requires
        forall|b: &[u8]| #[trigger] call_requires(*parse, (b,)),
    ensures
        exists|read: Result<RuntimeSnapshot, TransportError>| #[trigger]
            reads_runtime(frame@, read) && match read {
                Ok(runtime) => if belongs_to(runtime@, metadata@) {
                    r matches StreamReply::Snapshot(s) && s@ == snapshot_rebuilt(
                        runtime@,
                        metadata@,
                    )
                } else {
                    r == StreamReply::RefreshMetadata(runtime)
                },
                Err(fault) => r matches StreamReply::Failed(e) && refused(
                    frame@,
                    FrameType::RuntimePayload,
                    "RuntimePayload"@,
                    true,
                    *parse,
                    fault,
                    e,
                ),
            },
        forall|m: RuntimeView| #[trigger]
            runtime_archive(m) is Some && carries(
                frame@,
                FrameType::RuntimePayload,
                runtime_archive(m)->0,
            ) ==> if belongs_to(m, metadata@) {
                r matches StreamReply::Snapshot(x) && x@ == snapshot_rebuilt(m, metadata@)
            } else {
                r matches StreamReply::RefreshMetadata(x) && x@ == m
            },
        forall|s: SnapshotView| #[trigger]
            answers_with(frame@, s) && distinct_indices(s) && metadata@ == metadata_of(s) ==> (
            r matches StreamReply::Snapshot(x) && x@ == without_commands(s)),
{
    proof {
        assert forall|s: SnapshotView| #[trigger]
            answers_with(frame@, s) && distinct_indices(s) implies carries(
            frame@,
            FrameType::RuntimePayload,
            runtime_archive(runtime_of(s))->0,
        ) && runtime_archive(runtime_of(s)) is Some && snapshot_rebuilt(
            runtime_of(s),
            metadata_of(s),
        ) == without_commands(s) by {
            law_reply_carries_the_archive(frame@, s);
            law_parts_rebuild_the_snapshot(s);
        }
    }
    let read = parse_runtime_payload_frame(frame);
    assert(reads_runtime(frame@, read));
    match read {
        Ok(runtime) => {
            if runtime.metadata_hash != 0 && runtime.metadata_hash != metadata.metadata_hash() {
                StreamReply::RefreshMetadata(runtime)
            } else {
                StreamReply::Snapshot(runtime.to_snapshot(metadata))
            }
        },
        Err(fault) => StreamReply::Failed(
            refuse(frame, FrameType::RuntimePayload, "RuntimePayload", true, parse, fault),
        ),
    }
}

/// The snapshot in the reply to a query over KCP, where nodes send it whole.
pub fn parse_kcp_query_reply<P: Fn(&[u8]) -> Result<WireQueryResponse, String>>(
    frame: &[u8],
    parse: &P,
) -> (r: Result<ServerGresSnapshot, ClientError>)
    requires
        forall|b: &[u8]| #[trigger] call_requires(*parse, (b,)),
    ensures
        exists|read: Result<ServerGresSnapshot, TransportError>| #[trigger]
            reads_snapshot(frame@, read) && match read {
                Ok(s) => r == Ok::<ServerGresSnapshot, ClientError>(s),
                Err(fault) => r matches Err(e) && refused(
                    frame@,
                    FrameType::DataPayload,
                    "DataPayload"@,
                    true,
                    *parse,
                    fault,
                    e,
                ),
            },
        forall|m: SnapshotView| #[trigger]
            snapshot_archive(m) is Some && carries(
                frame@,
                FrameType::DataPayload,
                snapshot_archive(m)->0,
            ) ==> (r matches Ok(x) && x@ == m),
{
    let read = parse_data_payload_frame(frame);
    assert(reads_snapshot(frame@, read));
    match read {
        Ok(s) => Ok(s),
        Err(fault) => Err(refuse(frame, FrameType::DataPayload, "DataPayload", true, parse, fault)),
    }
}

/// What a frame means that comes in between over KCP: a disconnect is an error,
/// any other frame is passed over.
pub fn control_frame(frame: &[u8]) -> (r: Result<(), ClientError>)
    ensures
        match spec_decode_frame(frame@) {
            Err(e) => r == Err::<(), ClientError>(
                ClientError::Transport(TransportError::Frame(e)),
            ),
            Ok((header, payload)) => if header.frame_type == FrameType::Disconnect {
                r matches Err(ClientError::Server(s)) && s@ == disconnect_message(
                    trimmed(text_in(payload)),
                )
            } else {
                r == Ok::<(), ClientError>(())
            },
        },
{
    match decode_frame(frame) {
        Err(e) => Err(ClientError::Transport(TransportError::Frame(e))),
        Ok((header, payload)) => {
            if header.frame_type == FrameType::Disconnect {
                let reason = trim(lossy_text(payload).as_str());
                Err(disconnect_error(reason.as_str()))
            } else {
                Ok(())
            }
        },
    }
}

} // verus!
