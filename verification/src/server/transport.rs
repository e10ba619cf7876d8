//! What a node answers to a frame.

use vstd::prelude::*;
use vstd::utf8::encode_utf8;
use crate::bytes::copy_bytes;
use crate::common::error::ErrorCode;
use crate::common::frame::{
    decode_frame, encode_frame, frame_bytes, spec_decode_frame, FrameDecodeError, FrameHeader,
    FrameType, FRAME_HEADER_LEN, PROTOCOL_VERSION,
};
use crate::common::message::{HandshakeRequest, QueryRequest, QueryResponse, ResponseStatus};
use crate::common::payload::{
    encode_metadata_payload, encode_runtime_payload, is_payload, lemma_parts_fit,
    metadata_archive, runtime_archive, PayloadEncodeError, MAX_PAYLOAD_LEN,
};
use crate::common::snapshot::{metadata_of, runtime_of, HostMetadata, RuntimeSnapshot};
use crate::common::udp::{encode_udp_single_chunk_from_parts, spec_encode_parts, UdpChunkError};
use crate::server::cache::{
    entry_ok, entry_result, latest_outcome, CacheEntry, CacheView, ClockReading, EntryView, GresCache,
};
use crate::server::collector::GresCollector;
use crate::text::bytes_of;

verus! {

/// A frame taken apart.
#[derive(Debug)]
pub struct DecodedFrame {
    pub header: FrameHeader,
    pub payload: Vec<u8>,
}

/// Why a frame is not answered.
#[derive(Debug)]
pub enum TransportError {
    FrameDecode(FrameDecodeError),
    UnexpectedFrameType(FrameType),
    Protocol(ErrorCode),
    Json(String),
    Payload(PayloadEncodeError),
    Udp(UdpChunkError),
}

/// The header of a frame of the current version.
pub open spec fn header_for(frame_type: FrameType, request_id: u64) -> FrameHeader {
    FrameHeader { version: PROTOCOL_VERSION, frame_type, request_id, payload_len: 0 }
}

/// A frame with the given payload.
pub fn encode_transport_frame(frame_type: FrameType, request_id: u64, payload: &[u8]) -> (r: Vec<u8>)
    ensures
        r@ == frame_bytes(header_for(frame_type, request_id), payload@),
{
    let header = FrameHeader::new(frame_type, request_id, payload.len() as u32);
    let r = encode_frame(header, payload);
    assert(header.with_len(payload@.len()) == header_for(frame_type, request_id).with_len(
        payload@.len(),
    ));
    r
}

/// Takes a frame apart.
pub fn decode_transport_frame(frame: &[u8]) -> (r: Result<DecodedFrame, TransportError>)
    ensures
        match spec_decode_frame(frame@) {
            Ok((header, payload)) => r matches Ok(d) && d.header == header && d.payload@ == payload,
            Err(e) => r == Err::<DecodedFrame, _>(TransportError::FrameDecode(e)),
        },
{
    match decode_frame(frame) {
        Ok((header, payload)) => Ok(DecodedFrame { header, payload: copy_bytes(payload) }),
        Err(e) => Err(TransportError::FrameDecode(e)),
    }
}

// ---------------------------------------------------------------------------
// From a frame to a request

/// What a client asks for, and the id to answer with.
#[derive(Debug, Clone, Copy, PartialEq, Eq, Structural)]
pub enum Request {
    Metadata(u64),
    Runtime(u64),
}

impl Request {
    pub open spec fn spec_id(self) -> u64 {
        match self {
            Request::Metadata(id) => id,
            Request::Runtime(id) => id,
        }
    }
}

/// What is needed to know what a frame asks for.
#[derive(Debug, Clone, Copy, PartialEq, Eq, Structural)]
pub enum RequestStep {
    /// The payload is to be read as a handshake request.
    ParseHandshake,
    /// The payload is to be read as a query request.
    ParseQuery,
    /// Nothing: this is what it asks for.
    Known(Request),
    /// It asks for nothing.
    Unexpected(FrameType),
}

/// What is needed to know what a frame asks for. A query without a payload is
/// answered with the id of its frame.
pub open spec fn spec_request_step(header: FrameHeader, payload: Seq<u8>) -> RequestStep {
    match header.frame_type {
        FrameType::HandshakeRequest => RequestStep::ParseHandshake,
        FrameType::QueryRequest => if payload.len() == 0 {
            RequestStep::Known(Request::Runtime(header.request_id))
        } else {
            RequestStep::ParseQuery
        },
        t => RequestStep::Unexpected(t),
    }
}

/// What is needed to know what a frame asks for.
pub fn request_step(header: FrameHeader, payload: &[u8]) -> (r: RequestStep)
    ensures
        r == spec_request_step(header, payload@),
{
    match header.frame_type {
        FrameType::HandshakeRequest => RequestStep::ParseHandshake,
        FrameType::QueryRequest => {
            if payload.len() == 0 {
                RequestStep::Known(Request::Runtime(header.request_id))
            } else {
                RequestStep::ParseQuery
            }
        },
        t => RequestStep::Unexpected(t),
    }
}

/// What a frame with a handshake request asks for.
pub open spec fn handshake_asks(
    request_id: u64,
    parsed: Result<HandshakeRequest, String>,
) -> Result<Request, TransportError> {
    match parsed {
        Err(text) => Err(TransportError::Json(text)),
        Ok(request) => if request.version == PROTOCOL_VERSION {
            Ok(Request::Metadata(request_id))
        } else {
            Err(TransportError::Protocol(ErrorCode::ProtocolVersionMismatch))
        },
    }
}

/// What a frame with a handshake request asks for.
pub fn handshake_request(request_id: u64, parsed: Result<HandshakeRequest, String>) -> (r: Result<
    Request,
    TransportError,
>)
    ensures
        r == handshake_asks(request_id, parsed),
{
    match parsed {
        Err(text) => Err(TransportError::Json(text)),
        Ok(request) => match request.validate() {
            Ok(()) => Ok(Request::Metadata(request_id)),
            Err(code) => Err(TransportError::Protocol(code)),
        },
    }
}

/// What a frame with a query request asks for: the id is that of the request.
pub open spec fn query_asks(parsed: Result<QueryRequest, String>) -> Result<
    Request,
    TransportError,
> {
    match parsed {
        Err(text) => Err(TransportError::Json(text)),
        Ok(request) => if request.version == PROTOCOL_VERSION {
            Ok(Request::Runtime(request.request_id))
        } else {
            Err(TransportError::Protocol(ErrorCode::ProtocolVersionMismatch))
        },
    }
}

/// What a frame with a query request asks for.
pub fn query_request(parsed: Result<QueryRequest, String>) -> (r: Result<Request, TransportError>)
    ensures
        r == query_asks(parsed),
{
    match parsed {
        Err(text) => Err(TransportError::Json(text)),
        Ok(request) => match crate::common::message::validate_protocol_version(request.version) {
            Ok(()) => Ok(Request::Runtime(request.request_id)),
            Err(code) => Err(TransportError::Protocol(code)),
        },
    }
}

// ---------------------------------------------------------------------------
// From a request to a reply

/// The answer that carries an error.
pub open spec fn error_response(request_id: u64, code: ErrorCode) -> QueryResponse {
    QueryResponse {
        version: PROTOCOL_VERSION,
        request_id,
        status: ResponseStatus::Error,
        error: Some(code),
    }
}

/// The payload for an archive, if it can be announced.
pub open spec fn announced(archive: Option<Seq<u8>>) -> Option<Seq<u8>> {
    match archive {
        Some(a) => if 0 < a.len() <= MAX_PAYLOAD_LEN {
            Some(a)
        } else {
            None
        },
        None => None,
    }
}

/// The payload that answers a request with a cache entry.
pub open spec fn entry_payload(request: Request, e: EntryView) -> Option<Seq<u8>> {
    match request {
        Request::Metadata(_) => announced(metadata_archive(metadata_of(e.snapshot))),
        Request::Runtime(_) => announced(runtime_archive(runtime_of(e.snapshot))),
    }
}

/// The kind and the payload of the reply: metadata or runtime part, or the
/// error of the collection. Nothing if the payload cannot be made.
pub open spec fn reply(request: Request, entry: Result<EntryView, ErrorCode>) -> Option<
    (FrameType, Seq<u8>),
> {
    match entry {
        Err(code) => Some(
            (
                FrameType::QueryResponse,
                encode_utf8(error_response(request.spec_id(), code).spec_json()),
            ),
        ),
        Ok(e) => match entry_payload(request, e) {
            Some(p) => Some(
                (
                    match request {
                        Request::Metadata(_) => FrameType::MetadataPayload,
                        Request::Runtime(_) => FrameType::RuntimePayload,
                    },
                    p,
                ),
            ),
            None => None,
        },
    }
}

/// Whether `e` says why the payload for an entry cannot be made.
pub open spec fn payload_refused(
    request: Request,
    entry: Result<EntryView, ErrorCode>,
    e: PayloadEncodeError,
) -> bool {
    entry matches Ok(view) && match request {
        Request::Metadata(_) => is_payload(
            Err(e),
            metadata_archive(metadata_of(view.snapshot)),
        ),
        Request::Runtime(_) => is_payload(
            Err(e),
            runtime_archive(runtime_of(view.snapshot)),
        ),
    }
}

/// The kind and the payload of the reply to a request.
pub fn reply_parts(request: Request, entry: &Result<CacheEntry, ErrorCode>) -> (r: Result<
    (FrameType, Vec<u8>),
    TransportError,
>)
    requires
        *entry matches Ok(e) ==> entry_ok(e@),
    ensures
        match r {
            Ok((t, p)) => reply(request, entry_result(*entry)) == Some((t, p@)),
            Err(TransportError::Payload(e)) => reply(request, entry_result(*entry)) is None
                && payload_refused(request, entry_result(*entry), e),
            Err(_) => false,
        },
{
    match entry {
        Err(code) => {
            let id: u64 = match request {
                Request::Metadata(id) => id,
                Request::Runtime(id) => id,
            };
            let response = QueryResponse::error(id, *code);
            let json = response.to_json();
            Ok((FrameType::QueryResponse, bytes_of(json.as_str())))
        },
        Ok(e) => {
            proof {
                lemma_parts_fit(e.snapshot@);
            }
            match request {
                Request::Metadata(_) => {
                    let metadata = HostMetadata::from_snapshot(&e.snapshot);
                    match encode_metadata_payload(&metadata) {
                        Ok(p) => Ok((FrameType::MetadataPayload, p)),
                        Err(err) => Err(TransportError::Payload(err)),
                    }
                },
                Request::Runtime(_) => {
                    let runtime = RuntimeSnapshot::from_snapshot(&e.snapshot);
                    match encode_runtime_payload(&runtime) {
                        Ok(p) => Ok((FrameType::RuntimePayload, p)),
                        Err(err) => Err(TransportError::Payload(err)),
                    }
                },
            }
        },
    }
}

/// The frame that answers a request.
pub fn reply_frame(request: Request, entry: &Result<CacheEntry, ErrorCode>) -> (r: Result<
    Vec<u8>,
    TransportError,
>)
    requires
        *entry matches Ok(e) ==> entry_ok(e@),
    ensures
        match r {
            Ok(frame) => reply(request, entry_result(*entry)) matches Some((t, p)) && frame@
                == frame_bytes(header_for(t, request.spec_id()), p),
            Err(TransportError::Payload(e)) => reply(request, entry_result(*entry)) is None
                && payload_refused(request, entry_result(*entry), e),
            Err(_) => false,
        },
{
    let id: u64 = match request {
        Request::Metadata(id) => id,
        Request::Runtime(id) => id,
    };
    match reply_parts(request, entry) {
        Ok((t, p)) => Ok(encode_transport_frame(t, id, p.as_slice())),
        Err(e) => Err(e),
    }
}

/// The datagram that answers a request, or nothing if its frame is longer than
/// `max_payload`.
pub fn reply_datagram(
    request: Request,
    entry: &Result<CacheEntry, ErrorCode>,
    max_payload: usize,
) -> (r: Result<Option<Vec<u8>>, TransportError>)
    requires
        *entry matches Ok(e) ==> entry_ok(e@),
    ensures
        match reply(request, entry_result(*entry)) {
            None => r matches Err(TransportError::Payload(e)) && payload_refused(
                request,
                entry_result(*entry),
                e,
            ),
            Some((t, p)) => if FRAME_HEADER_LEN + p.len() > max_payload {
                r == Ok::<Option<Vec<u8>>, TransportError>(None)
            } else {
                match spec_encode_parts(t, request.spec_id(), p) {
                    Ok(d) => r matches Ok(Some(datagram)) && datagram@ == d,
                    Err(e) => r == Err::<Option<Vec<u8>>, TransportError>(TransportError::Udp(e)),
                }
            },
        },
{
    let id: u64 = match request {
        Request::Metadata(id) => id,
        Request::Runtime(id) => id,
    };
    match reply_parts(request, entry) {
        Ok((t, p)) => {
            if max_payload < FRAME_HEADER_LEN || p.len() > max_payload - FRAME_HEADER_LEN {
                return Ok(None);
            }
            match encode_udp_single_chunk_from_parts(t, id, p.as_slice()) {
                Ok(d) => Ok(Some(d)),
                Err(e) => Err(TransportError::Udp(e)),
            }
        },
        Err(e) => Err(e),
    }
}

// ---------------------------------------------------------------------------
// A node that answers one frame after the other

/// How the payloads of requests are read, and the clock.
pub struct Hooks<K, H, Q> {
    pub clock: K,
    pub parse_handshake: H,
    pub parse_query: Q,
}

impl<
    K: Fn() -> ClockReading,
    H: Fn(&[u8]) -> Result<HandshakeRequest, String>,
    Q: Fn(&[u8]) -> Result<QueryRequest, String>,
> Hooks<K, H, Q> {
    /// The hooks take any input.
    pub open spec fn callable(&self) -> bool {
        &&& call_requires(self.clock, ())
        &&& forall|b: &[u8]| #[trigger] call_requires(self.parse_handshake, (b,))
        &&& forall|b: &[u8]| #[trigger] call_requires(self.parse_query, (b,))
    }

    /// Whether `r` is what a frame asks for, by what the hooks may return.
    pub open spec fn asks(
        &self,
        header: FrameHeader,
        payload: Seq<u8>,
        r: Result<Request, TransportError>,
    ) -> bool {
        match spec_request_step(header, payload) {
            RequestStep::ParseHandshake => exists|b: &[u8], p: Result<HandshakeRequest, String>|
                b@ == payload && #[trigger] call_ensures(self.parse_handshake, (b,), p) && r
                    == handshake_asks(header.request_id, p),
            RequestStep::ParseQuery => exists|b: &[u8], p: Result<QueryRequest, String>|
                b@ == payload && #[trigger] call_ensures(self.parse_query, (b,), p) && r
                    == query_asks(p),
            RequestStep::Known(request) => r == Ok::<Request, TransportError>(request),
            RequestStep::Unexpected(t) => r == Err::<Request, TransportError>(
                TransportError::UnexpectedFrameType(t),
            ),
        }
    }

    /// What a frame asks for.
    pub fn request_of(&self, decoded: &DecodedFrame) -> (r: Result<Request, TransportError>)
        requires
            self.callable(),
        ensures
            self.asks(decoded.header, decoded.payload@, r),
    {
        let payload = decoded.payload.as_slice();
        match request_step(decoded.header, payload) {
            RequestStep::ParseHandshake => {
                let p = (self.parse_handshake)(payload);
                assert(call_ensures(self.parse_handshake, (payload,), p));
                handshake_request(decoded.header.request_id, p)
            },
            RequestStep::ParseQuery => {
                let p = (self.parse_query)(payload);
                assert(call_ensures(self.parse_query, (payload,), p));
                query_request(p)
            },
            RequestStep::Known(request) => Ok(request),
            RequestStep::Unexpected(t) => Err(TransportError::UnexpectedFrameType(t)),
        }
    }
}

/// A collector with its cache.
pub struct TransportContext<C> {
    collector: C,
    cache: GresCache,
    ttl_ms: u64,
}

impl<C: GresCollector> TransportContext<C> {
    pub closed spec fn spec_collector(&self) -> C {
        self.collector
    }

    pub closed spec fn spec_cache(&self) -> CacheView {
        self.cache@
    }

    pub closed spec fn spec_ttl_ms(&self) -> u64 {
        self.ttl_ms
    }

    /// The cache is sound and nobody is collecting.
    pub closed spec fn wf(&self) -> bool {
        self.cache.wf() && !self.cache@.in_flight
    }

    pub fn new(collector: C, cache: GresCache, ttl_ms: u64) -> (r: TransportContext<C>)
        requires
            cache.wf(),
            !cache@.in_flight,
        ensures
            r.wf(),
            r.spec_collector() == collector,
            r.spec_cache() == cache@,
            r.spec_ttl_ms() == ttl_ms,
    {
        TransportContext { collector, cache, ttl_ms }
    }

    /// Whether `entry` is what the cache gives, by what collector and clock may
    /// return.
    pub open spec fn gives<K: Fn() -> ClockReading>(
        &self,
        clock: K,
        after: CacheView,
        entry: Result<EntryView, ErrorCode>,
    ) -> bool {
        latest_outcome(
            self.spec_collector(),
            clock,
            self.spec_cache(),
            after,
            self.spec_ttl_ms(),
            entry,
        )
    }

    fn entry<K: Fn() -> ClockReading>(&mut self, clock: &K) -> (r: Result<CacheEntry, ErrorCode>)
        requires
            old(self).wf(),
            call_requires(*clock, ()),
        ensures
            final(self).wf(),
            final(self).spec_collector() == old(self).spec_collector(),
            final(self).spec_ttl_ms() == old(self).spec_ttl_ms(),
            old(self).gives(*clock, final(self).spec_cache(), entry_result(r)),
            r matches Ok(e) ==> entry_ok(e@),
    {
        self.cache.get_latest_or_refresh(&self.collector, self.ttl_ms, clock)
    }

    /// Answers a frame.
    pub fn handle_frame<
        K: Fn() -> ClockReading,
        H: Fn(&[u8]) -> Result<HandshakeRequest, String>,
        Q: Fn(&[u8]) -> Result<QueryRequest, String>,
    >(&mut self, frame: &[u8], hooks: &Hooks<K, H, Q>) -> (r: Result<Vec<u8>, TransportError>)
        requires
            old(self).wf(),
            hooks.callable(),
        ensures
            final(self).wf(),
            final(self).spec_collector() == old(self).spec_collector(),
            final(self).spec_ttl_ms() == old(self).spec_ttl_ms(),
            match spec_decode_frame(frame@) {
                Err(e) => r == Err::<Vec<u8>, _>(TransportError::FrameDecode(e))
                    && final(self).spec_cache() == old(self).spec_cache(),
                Ok((header, payload)) => answered(
                    *old(self),
                    final(self).spec_cache(),
                    *hooks,
                    header,
                    payload,
                    r,
                ),
            },
    {
        match decode_transport_frame(frame) {
            Ok(decoded) => self.handle_decoded_frame(decoded, hooks),
            Err(e) => Err(e),
        }
    }

    /// Answers a frame that was taken apart already.
    pub fn handle_decoded_frame<
        K: Fn() -> ClockReading,
        H: Fn(&[u8]) -> Result<HandshakeRequest, String>,
        Q: Fn(&[u8]) -> Result<QueryRequest, String>,
    >(&mut self, decoded: DecodedFrame, hooks: &Hooks<K, H, Q>) -> (r: Result<
        Vec<u8>,
        TransportError,
    >)
        requires
            old(self).wf(),
            hooks.callable(),
        ensures
            final(self).wf(),
            final(self).spec_collector() == old(self).spec_collector(),
            final(self).spec_ttl_ms() == old(self).spec_ttl_ms(),
            answered(
                *old(self),
                final(self).spec_cache(),
                *hooks,
                decoded.header,
                decoded.payload@,
                r,
            ),
    {
        let ghost before = *self;
        let asked = hooks.request_of(&decoded);
        match asked {
            Err(e) => {
                assert(hooks.asks(decoded.header, decoded.payload@, Err(e)));
                Err(e)
            },
            Ok(request) => {
                let entry = self.entry(&hooks.clock);
                let r = reply_frame(request, &entry);
                assert(hooks.asks(decoded.header, decoded.payload@, Ok(request)));
                assert(before.gives(hooks.clock, self.spec_cache(), entry_result(entry)));
                assert(replied(request, entry_result(entry), r));
                r
            },
        }
    }

    /// Answers a query without a payload in one datagram, if the answer fits.
    pub fn handle_empty_query_udp_datagram<K: Fn() -> ClockReading>(
        &mut self,
        request_id: u64,
        max_payload: usize,
        clock: &K,
    ) -> (r: Result<Option<Vec<u8>>, TransportError>)
        requires
            old(self).wf(),
            call_requires(*clock, ()),
        ensures
            final(self).wf(),
            final(self).spec_collector() == old(self).spec_collector(),
            final(self).spec_ttl_ms() == old(self).spec_ttl_ms(),
            exists|entry: Result<EntryView, ErrorCode>| #[trigger]
                old(self).gives(*clock, final(self).spec_cache(), entry) && replied_in_one(
                    Request::Runtime(request_id),
                    entry,
                    max_payload,
                    r,
                ),
    {
        let entry = self.entry(clock);
        reply_datagram(Request::Runtime(request_id), &entry, max_payload)
    }

    /// Answers a handshake in one datagram, if the answer fits.
    pub fn handle_udp_metadata_datagram<
        K: Fn() -> ClockReading,
        H: Fn(&[u8]) -> Result<HandshakeRequest, String>,
        Q: Fn(&[u8]) -> Result<QueryRequest, String>,
    >(&mut self, request_id: u64, payload: &[u8], max_payload: usize, hooks: &Hooks<K, H, Q>) -> (r:
        Result<Option<Vec<u8>>, TransportError>)
        requires
            old(self).wf(),
            hooks.callable(),
        ensures
            final(self).wf(),
            final(self).spec_collector() == old(self).spec_collector(),
            final(self).spec_ttl_ms() == old(self).spec_ttl_ms(),
            exists|p: Result<HandshakeRequest, String>| #[trigger]
                call_ensures(hooks.parse_handshake, (payload,), p) && match handshake_asks(
                    request_id,
                    p,
                ) {
                    Err(e) => r == Err::<Option<Vec<u8>>, _>(e) && final(self).spec_cache() == old(
                        self,
                    ).spec_cache(),
                    Ok(request) => exists|entry: Result<EntryView, ErrorCode>| #[trigger]
                        old(self).gives(hooks.clock, final(self).spec_cache(), entry)
                            && replied_in_one(request, entry, max_payload, r),
                },
    {
        let p = (hooks.parse_handshake)(payload);
        match handshake_request(request_id, p) {
            Err(e) => Err(e),
            Ok(request) => {
                let entry = self.entry(&hooks.clock);
                reply_datagram(request, &entry, max_payload)
            },
        }
    }
}

/// Whether `r` is the frame for a request and an entry.
pub open spec fn replied(
    request: Request,
    entry: Result<EntryView, ErrorCode>,
    r: Result<Vec<u8>, TransportError>,
) -> bool {
    match reply(request, entry) {
        Some((t, p)) => r matches Ok(frame) && frame@ == frame_bytes(
            header_for(t, request.spec_id()),
            p,
        ),
        None => r matches Err(TransportError::Payload(e)) && payload_refused(request, entry, e),
    }
}

/// Whether `r` is the datagram for a request and an entry.
pub open spec fn replied_in_one(
    request: Request,
    entry: Result<EntryView, ErrorCode>,
    max_payload: usize,
    r: Result<Option<Vec<u8>>, TransportError>,
) -> bool {
    match reply(request, entry) {
        None => r matches Err(TransportError::Payload(e)) && payload_refused(request, entry, e),
        Some((t, p)) => if FRAME_HEADER_LEN + p.len() > max_payload {
            r == Ok::<Option<Vec<u8>>, TransportError>(None)
        } else {
            match spec_encode_parts(t, request.spec_id(), p) {
                Ok(d) => r matches Ok(Some(datagram)) && datagram@ == d,
                Err(e) => r == Err::<Option<Vec<u8>>, TransportError>(TransportError::Udp(e)),
            }
        },
    }
}

/// Whether `r` answers a frame, by what collector, clock and hooks may return:
/// a frame that asks for nothing leaves the cache alone.
pub open spec fn answered<
    C: GresCollector,
    K: Fn() -> ClockReading,
    H: Fn(&[u8]) -> Result<HandshakeRequest, String>,
    Q: Fn(&[u8]) -> Result<QueryRequest, String>,
>(
    before: TransportContext<C>,
    after: CacheView,
    hooks: Hooks<K, H, Q>,
    header: FrameHeader,
    payload: Seq<u8>,
    r: Result<Vec<u8>, TransportError>,
) -> bool {
    exists|asked: Result<Request, TransportError>| #[trigger]
        hooks.asks(header, payload, asked) && match asked {
            Err(e) => r == Err::<Vec<u8>, TransportError>(e) && after == before.spec_cache(),
            Ok(request) => exists|entry: Result<EntryView, ErrorCode>| #[trigger]
                before.gives(hooks.clock, after, entry) && replied(request, entry, r),
        }
}

// ---------------------------------------------------------------------------
// Laws

/// A reply carries the id that was asked with, and its frame can be read.
pub proof fn law_reply_carries_the_id(request: Request, entry: Result<EntryView, ErrorCode>)
    requires
        reply(request, entry) matches Some((t, p)) && p.len() <= u32::MAX,
    ensures
        ({
            let (t, p) = reply(request, entry)->0;
            spec_decode_frame(frame_bytes(header_for(t, request.spec_id()), p)) == Ok::<
                (FrameHeader, Seq<u8>),
                FrameDecodeError,
            >((header_for(t, request.spec_id()).with_len(p.len()), p))
        }),
{
    let (t, p) = reply(request, entry)->0;
    crate::common::frame::law_frame_reads_back(header_for(t, request.spec_id()), p);
}

/// A collection that failed is answered with its error code, whatever was
/// asked for.
pub proof fn law_failed_collection_is_answered(request: Request, code: ErrorCode)
    ensures
        reply(request, Err::<EntryView, ErrorCode>(code)) == Some(
            (
                FrameType::QueryResponse,
                encode_utf8(error_response(request.spec_id(), code).spec_json()),
            ),
        ),
{
}

} // verus!
