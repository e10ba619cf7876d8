//! The datagram server of a node, as a state machine.
//!
//! Each event (a datagram, the link size of a route, a parsed request, a cache
//! entry) is answered with the next [`Step`]. Steps that ask for something are
//! followed by the event that brings it; after all others the next datagram
//! is due.

use vstd::prelude::*;
use crate::bytes::copy_bytes;
use crate::common::crc::crc32;
use crate::common::error::ErrorCode;
use crate::common::frame::{
    decode_frame, frame_bytes, lemma_header_bytes, spec_decode_frame, FrameHeader, FrameType,
    FRAME_HEADER_LEN, PROTOCOL_VERSION,
};
use crate::common::message::{HandshakeRequest, QueryRequest};
use crate::common::net::{addr_key, AddrView, NodeAddr};
use crate::common::reassembly::{groups_after, outcome, GroupView, UdpFrameReassembler};
use crate::common::udp::{
    chunk_count, chunk_datagram, chunk_header, cutting_fault, decode_udp_single_chunk_ref,
    effective_udp_payload_capacity, encode_udp_chunks, encode_udp_single_chunk,
    lemma_chunk_bounds, lemma_chunk_header_bytes, payload_room, single_datagram,
    spec_decode_single, spec_encode_parts, spec_encode_single, UdpChunkError, UdpChunkHeader,
    UDP_CHUNK_HEADER_LEN, UDP_FALLBACK_MTU,
};
use crate::server::cache::{entry_ok, entry_result, CacheEntry, EntryView};
use crate::server::transport::{
    handshake_asks, handshake_request, header_for, payload_refused, query_asks, query_request,
    reply, reply_datagram, reply_frame, request_step, spec_request_step, Request, RequestStep,
    TransportError,
};
use crate::text::{lossy_text, text_in, trim, trimmed};
use crate::textmap::TextMap;

verus! {

/// What is to be done next.
#[derive(Debug)]
pub enum Step {
    /// Nothing.
    Next,
    /// Report a datagram that was dropped.
    Dropped(UdpChunkError),
    /// Report a frame that is not answered.
    FrameFailed(TransportError),
    /// Report an answer that does not fit datagrams.
    EncodeFailed(UdpChunkError),
    /// Report that the peer has gone, with its reason.
    Disconnected(String),
    /// Send these datagrams to the peer, up to the first that fails.
    Send(Vec<Vec<u8>>),
    /// Find the link size of the route to the peer.
    FindMtu,
    /// Read the payload as a handshake request.
    ParseHandshake(Vec<u8>),
    /// Read the payload as a query request.
    ParseQuery(Vec<u8>),
    /// Get a cache entry of any age.
    FetchEntry,
}

/// The frame that is being answered.
#[derive(Debug)]
pub struct Job {
    peer: NodeAddr,
    header: FrameHeader,
    payload: Vec<u8>,
}

/// What the server waits for.
#[derive(Debug)]
pub enum Phase {
    /// A datagram.
    Idle,
    /// The room in a datagram, to answer in one.
    RoomForOne(Job),
    /// The handshake, to answer in one datagram.
    HandshakeForOne(Job),
    /// The entry, to answer in one datagram.
    EntryForOne(Job, Request),
    /// The handshake or the query.
    Parsing(Job),
    /// The entry.
    Entry(Job, Request),
    /// The room in a datagram for an answer.
    RoomForAnswer(Job, Vec<u8>),
}

/// The server: the chunks of each peer and the room in a datagram to it.
pub struct UdpServer {
    reassemblers: TextMap<UdpFrameReassembler>,
    payload_caps: TextMap<usize>,
    idle_timeout_ms: u64,
    configured_mtu: u16,
    phase: Phase,
}

// ---------------------------------------------------------------------------
// Models

pub struct JobView {
    pub peer: AddrView,
    pub header: FrameHeader,
    pub payload: Seq<u8>,
}

pub enum PhaseView {
    Idle,
    RoomForOne(JobView),
    HandshakeForOne(JobView),
    EntryForOne(JobView, Request),
    Parsing(JobView),
    Entry(JobView, Request),
    RoomForAnswer(JobView, Seq<u8>),
}

pub enum StepView {
    Next,
    Dropped(UdpChunkError),
    FrameFailed(TransportError),
    EncodeFailed(UdpChunkError),
    Disconnected(Seq<char>),
    Send(Seq<Seq<u8>>),
    FindMtu,
    ParseHandshake(Seq<u8>),
    ParseQuery(Seq<u8>),
    FetchEntry,
}

/// The chunks of a peer and until when they count.
pub struct PeerChunks {
    pub groups: Map<u64, GroupView>,
    pub deadline: u64,
}

pub struct ServerView {
    pub chunks: Map<Seq<char>, PeerChunks>,
    pub caps: Map<Seq<char>, usize>,
    pub idle_timeout_ms: u64,
    pub configured_mtu: u16,
    pub phase: PhaseView,
}

impl View for Job {
    type V = JobView;

    closed spec fn view(&self) -> JobView {
        JobView { peer: self.peer@, header: self.header, payload: self.payload@ }
    }
}

impl View for Phase {
    type V = PhaseView;

    closed spec fn view(&self) -> PhaseView {
        match self {
            Phase::Idle => PhaseView::Idle,
            Phase::RoomForOne(j) => PhaseView::RoomForOne(j@),
            Phase::HandshakeForOne(j) => PhaseView::HandshakeForOne(j@),
            Phase::EntryForOne(j, r) => PhaseView::EntryForOne(j@, *r),
            Phase::Parsing(j) => PhaseView::Parsing(j@),
            Phase::Entry(j, r) => PhaseView::Entry(j@, *r),
            Phase::RoomForAnswer(j, a) => PhaseView::RoomForAnswer(j@, a@),
        }
    }
}

/// The bytes of several datagrams.
pub open spec fn all_bytes(v: Seq<Vec<u8>>) -> Seq<Seq<u8>> {
    v.map_values(|d: Vec<u8>| d@)
}

impl View for Step {
    type V = StepView;

    open spec fn view(&self) -> StepView {
        match self {
            Step::Next => StepView::Next,
            Step::Dropped(e) => StepView::Dropped(*e),
            Step::FrameFailed(e) => StepView::FrameFailed(*e),
            Step::EncodeFailed(e) => StepView::EncodeFailed(*e),
            Step::Disconnected(s) => StepView::Disconnected(s@),
            Step::Send(v) => StepView::Send(all_bytes(v@)),
            Step::FindMtu => StepView::FindMtu,
            Step::ParseHandshake(b) => StepView::ParseHandshake(b@),
            Step::ParseQuery(b) => StepView::ParseQuery(b@),
            Step::FetchEntry => StepView::FetchEntry,
        }
    }
}

spec fn peer_chunks(r: UdpFrameReassembler) -> PeerChunks {
    PeerChunks { groups: r@, deadline: r.deadline() }
}

impl View for UdpServer {
    type V = ServerView;

    closed spec fn view(&self) -> ServerView {
        ServerView {
            chunks: self.reassemblers@.map_values(|r: UdpFrameReassembler| peer_chunks(r)),
            caps: self.payload_caps@,
            idle_timeout_ms: self.idle_timeout_ms,
            configured_mtu: self.configured_mtu,
            phase: self.phase@,
        }
    }
}

// ---------------------------------------------------------------------------
// The machine

/// `now` plus the timeout, at most the largest number.
pub open spec fn deadline_after(now_ms: u64, timeout_ms: u64) -> u64 {
    if now_ms + timeout_ms > u64::MAX {
        u64::MAX
    } else {
        (now_ms + timeout_ms) as u64
    }
}

/// The chunks of a peer that still count; none if they have timed out.
pub open spec fn chunks_of(s: ServerView, peer: Seq<char>, now_ms: u64) -> PeerChunks {
    if s.chunks.contains_key(peer) && now_ms < s.chunks[peer].deadline {
        s.chunks[peer]
    } else {
        PeerChunks {
            groups: Map::empty(),
            deadline: deadline_after(now_ms, s.idle_timeout_ms),
        }
    }
}

/// State and step after a chunk of several.
pub open spec fn after_chunk(s: ServerView, peer: AddrView, datagram: Seq<u8>, now_ms: u64) -> (
    ServerView,
    StepView,
) {
    let key = addr_key(peer);
    let before = chunks_of(s, key, now_ms);
    let next = ServerView {
        chunks: s.chunks.insert(
            key,
            PeerChunks { groups: groups_after(before.groups, datagram), ..before },
        ),
        ..s
    };
    match outcome(before.groups, datagram) {
        Ok(Some(frame)) => after_frame(next, peer, frame),
        Ok(None) => (next, StepView::Next),
        Err(e) => (next, StepView::Dropped(e)),
    }
}

/// State and step after a datagram.
pub open spec fn after_datagram(s: ServerView, peer: AddrView, datagram: Seq<u8>, now_ms: u64) -> (
    ServerView,
    StepView,
) {
    match spec_decode_single(datagram) {
        Ok(Some(frame)) => after_frame(s, peer, frame),
        Ok(None) => after_chunk(s, peer, datagram, now_ms),
        Err(e) => (s, StepView::Dropped(e)),
    }
}

/// Whether a frame is answered in one datagram if the answer fits: handshakes
/// and queries without a payload.
pub open spec fn answered_in_one(header: FrameHeader, payload: Seq<u8>) -> bool {
    header.frame_type == FrameType::HandshakeRequest || (header.frame_type
        == FrameType::QueryRequest && payload.len() == 0)
}

/// State and step after a frame.
pub open spec fn after_frame(s: ServerView, peer: AddrView, frame: Seq<u8>) -> (
    ServerView,
    StepView,
) {
    match spec_decode_frame(frame) {
        Err(e) => (s, StepView::FrameFailed(TransportError::FrameDecode(e))),
        Ok((header, payload)) => {
            let job = JobView { peer, header, payload };
            if header.frame_type == FrameType::Disconnect {
                (
                    ServerView { chunks: s.chunks.remove(addr_key(peer)), ..s },
                    StepView::Disconnected(trimmed(text_in(payload))),
                )
            } else if answered_in_one(header, payload) {
                if s.caps.contains_key(addr_key(peer)) {
                    start_one(s, job)
                } else {
                    (ServerView { phase: PhaseView::RoomForOne(job), ..s }, StepView::FindMtu)
                }
            } else {
                start(s, job)
            }
        },
    }
}

/// State and step where a frame is to be answered in one datagram.
pub open spec fn start_one(s: ServerView, job: JobView) -> (ServerView, StepView) {
    if job.header.frame_type == FrameType::HandshakeRequest {
        (
            ServerView { phase: PhaseView::HandshakeForOne(job), ..s },
            StepView::ParseHandshake(job.payload),
        )
    } else {
        (
            ServerView {
                phase: PhaseView::EntryForOne(job, Request::Runtime(job.header.request_id)),
                ..s
            },
            StepView::FetchEntry,
        )
    }
}

/// State and step where a frame is to be answered by as many datagrams as it
/// takes.
pub open spec fn start(s: ServerView, job: JobView) -> (ServerView, StepView) {
    match spec_request_step(job.header, job.payload) {
        RequestStep::ParseHandshake => (
            ServerView { phase: PhaseView::Parsing(job), ..s },
            StepView::ParseHandshake(job.payload),
        ),
        RequestStep::ParseQuery => (
            ServerView { phase: PhaseView::Parsing(job), ..s },
            StepView::ParseQuery(job.payload),
        ),
        RequestStep::Known(request) => (
            ServerView { phase: PhaseView::Entry(job, request), ..s },
            StepView::FetchEntry,
        ),
        RequestStep::Unexpected(t) => (
            ServerView { phase: PhaseView::Idle, ..s },
            StepView::FrameFailed(TransportError::UnexpectedFrameType(t)),
        ),
    }
}

/// The room for a peer when the link size of its route is known.
pub open spec fn room_for(s: ServerView, peer: AddrView, mtu: Option<usize>) -> usize {
    payload_room(
        peer.ipv4,
        if s.configured_mtu > 0 {
            s.configured_mtu as int
        } else {
            match mtu {
                Some(m) => m as int,
                None => UDP_FALLBACK_MTU as int,
            }
        },
    ) as usize
}

/// State and step after the link size of the route to the peer.
pub open spec fn after_mtu(s: ServerView, mtu: Option<usize>) -> (ServerView, StepView) {
    match s.phase {
        PhaseView::RoomForOne(job) => start_one(
            ServerView {
                caps: s.caps.insert(addr_key(job.peer), room_for(s, job.peer, mtu)),
                ..s
            },
            job,
        ),
        PhaseView::RoomForAnswer(job, answer) => (
            ServerView {
                caps: s.caps.insert(addr_key(job.peer), room_for(s, job.peer, mtu)),
                phase: PhaseView::Idle,
                ..s
            },
            datagrams_for(answer, room_for(s, job.peer, mtu)),
        ),
        _ => (s, StepView::Next),
    }
}

/// State and step after the request was read.
pub open spec fn after_request(s: ServerView, asked: Result<Request, TransportError>) -> (
    ServerView,
    StepView,
) {
    match asked {
        Err(e) => (ServerView { phase: PhaseView::Idle, ..s }, StepView::FrameFailed(e)),
        Ok(request) => (
            ServerView {
                phase: match s.phase {
                    PhaseView::HandshakeForOne(job) => PhaseView::EntryForOne(job, request),
                    PhaseView::Parsing(job) => PhaseView::Entry(job, request),
                    _ => PhaseView::Idle,
                },
                ..s
            },
            StepView::FetchEntry,
        ),
    }
}

/// The datagrams for an answer: one if it fits, else its chunks.
pub open spec fn datagrams_for(answer: Seq<u8>, room: usize) -> StepView {
    if answer.len() <= room {
        match spec_encode_single(answer) {
            Ok(d) => StepView::Send(seq![d]),
            Err(e) => StepView::EncodeFailed(e),
        }
    } else {
        match cutting_fault(answer, room as nat) {
            Some(e) => StepView::EncodeFailed(e),
            None => StepView::Send(
                Seq::new(
                    chunk_count(answer.len(), room as nat),
                    |i: int|
                        chunk_datagram(answer, spec_decode_frame(answer)->Ok_0.0, room as nat, i),
                ),
            ),
        }
    }
}

/// Whether state and step are right after the entry.
pub open spec fn after_entry(
    s: ServerView,
    entry: Result<EntryView, ErrorCode>,
    next: ServerView,
    step: StepView,
) -> bool {
    let idle = ServerView { phase: PhaseView::Idle, ..s };
    match s.phase {
        PhaseView::EntryForOne(job, request) => match reply(request, entry) {
            None => next == idle && (step matches StepView::FrameFailed(TransportError::Payload(e))
                && payload_refused(request, entry, e)),
            Some((t, p)) => if FRAME_HEADER_LEN + p.len() > s.caps[addr_key(job.peer)] {
                (next, step) == start(s, job)
            } else {
                match spec_encode_parts(t, request.spec_id(), p) {
                    Ok(d) => next == idle && step == StepView::Send(seq![d]),
                    Err(e) => next == idle && step == StepView::FrameFailed(TransportError::Udp(e)),
                }
            },
        },
        PhaseView::Entry(job, request) => match reply(request, entry) {
            None => next == idle && (step matches StepView::FrameFailed(TransportError::Payload(e))
                && payload_refused(request, entry, e)),
            Some((t, p)) => {
                let answer = frame_bytes(header_for(t, request.spec_id()), p);
                if s.caps.contains_key(addr_key(job.peer)) {
                    next == idle && step == datagrams_for(answer, s.caps[addr_key(job.peer)])
                } else {
                    next == (ServerView { phase: PhaseView::RoomForAnswer(job, answer), ..s })
                        && step == StepView::FindMtu
                }
            },
        },
        _ => false,
    }
}

fn send_one(d: Vec<u8>) -> (r: Step)
    ensures
        r@ == StepView::Send(seq![d@]),
{
    let mut v: Vec<Vec<u8>> = Vec::new();
    v.push(d);
    assert(all_bytes(v@) =~= seq![d@]);
    Step::Send(v)
}

/// The datagrams for an answer: one if it fits, else its chunks.
pub fn answer_datagrams(answer: &[u8], room: usize) -> (r: Step)
    ensures
        r@ == datagrams_for(answer@, room),
{
    if answer.len() <= room {
        match encode_udp_single_chunk(answer) {
            Ok(d) => send_one(d),
            Err(e) => Step::EncodeFailed(e),
        }
    } else {
        match encode_udp_chunks(answer, room) {
            Ok(v) => {
                proof {
                    let wanted = Seq::new(
                        chunk_count(answer@.len(), room as nat),
                        |i: int|
                            chunk_datagram(
                                answer@,
                                spec_decode_frame(answer@)->Ok_0.0,
                                room as nat,
                                i,
                            ),
                    );
                    assert(all_bytes(v@) =~= wanted);
                }
                Step::Send(v)
            },
            Err(e) => Step::EncodeFailed(e),
        }
    }
}

impl UdpServer {
    /// The maps are sound, and so are the chunks; where the server waits to
    /// answer in one datagram, the room for the peer is known.
    pub closed spec fn wf(&self) -> bool {
        &&& self.reassemblers.wf()
        &&& self.payload_caps.wf()
        &&& forall|k: Seq<char>| #[trigger]
            self.reassemblers@.contains_key(k) ==> self.reassemblers@[k].wf()
        &&& match self.phase@ {
            PhaseView::HandshakeForOne(j) => self.payload_caps@.contains_key(addr_key(j.peer)),
            PhaseView::EntryForOne(j, _) => self.payload_caps@.contains_key(addr_key(j.peer)),
            _ => true,
        }
    }

    /// A server without peers.
    pub fn new(idle_timeout_ms: u64, configured_mtu: u16) -> (r: UdpServer)
        ensures
            r.wf(),
            r@ == (ServerView {
                chunks: Map::empty(),
                caps: Map::empty(),
                idle_timeout_ms,
                configured_mtu,
                phase: PhaseView::Idle,
            }),
    {
        let r = UdpServer {
            reassemblers: TextMap::new(),
            payload_caps: TextMap::new(),
            idle_timeout_ms,
            configured_mtu,
            phase: Phase::Idle,
        };
        assert(r@.chunks =~= Map::<Seq<char>, PeerChunks>::empty());
        assert(r@.caps =~= Map::<Seq<char>, usize>::empty());
        r
    }

    /// A datagram has come in.
    pub fn on_datagram(&mut self, peer: &NodeAddr, datagram: &[u8], now_ms: u64) -> (step: Step)
        requires
            old(self).wf(),
            old(self)@.phase is Idle,
        ensures
            final(self).wf(),
            (final(self)@, step@) == after_datagram(old(self)@, peer@, datagram@, now_ms),
    {
        match decode_udp_single_chunk_ref(datagram) {
            Ok(Some(frame)) => self.on_frame(peer, frame),
            Ok(None) => self.on_chunk(peer, datagram, now_ms),
            Err(e) => Step::Dropped(e),
        }
    }

    fn on_chunk(&mut self, peer: &NodeAddr, datagram: &[u8], now_ms: u64) -> (step: Step)
        requires
            old(self).wf(),
            old(self)@.phase is Idle,
        ensures
            final(self).wf(),
            (final(self)@, step@) == after_chunk(old(self)@, peer@, datagram@, now_ms),
    {
        let key = peer.key();
        let ghost before = *self;
        let mut reassembler = match self.reassemblers.remove(key.as_str()) {
            Some(r) => {
                if r.is_expired(now_ms) {
                    UdpFrameReassembler::new(now_ms, self.idle_timeout_ms)
                } else {
                    r
                }
            },
            None => UdpFrameReassembler::new(now_ms, self.idle_timeout_ms),
        };
        assert(reassembler.wf());
        assert(peer_chunks(reassembler) == chunks_of(before@, key@, now_ms));
        let result = reassembler.insert(datagram);
        self.reassemblers.insert(key.as_str(), reassembler);
        proof {
            let chunks = before@.chunks.insert(key@, peer_chunks(reassembler));
            assert(self@.chunks =~= chunks);
        }
        match result {
            Ok(Some(frame)) => self.on_frame(peer, frame.as_slice()),
            Ok(None) => Step::Next,
            Err(e) => Step::Dropped(e),
        }
    }

    fn on_frame(&mut self, peer: &NodeAddr, frame: &[u8]) -> (step: Step)
        requires
            old(self).wf(),
            old(self)@.phase is Idle,
        ensures
            final(self).wf(),
            (final(self)@, step@) == after_frame(old(self)@, peer@, frame@),
    {
        let (header, payload) = match decode_frame(frame) {
            Ok((h, p)) => (h, copy_bytes(p)),
            Err(e) => {
                return Step::FrameFailed(TransportError::FrameDecode(e));
            },
        };
        let key = peer.key();
        if header.frame_type == FrameType::Disconnect {
            let ghost before = *self;
            let reason = trim(lossy_text(payload.as_slice()).as_str());
            let _ = self.reassemblers.remove(key.as_str());
            assert(self@.chunks =~= before@.chunks.remove(key@));
            return Step::Disconnected(reason);
        }
        let in_one = header.frame_type == FrameType::HandshakeRequest || (header.frame_type
            == FrameType::QueryRequest && payload.len() == 0);
        let job = Job { peer: peer.clone(), header, payload };
        if in_one {
            if self.payload_caps.contains(key.as_str()) {
                self.start_one(job)
            } else {
                self.phase = Phase::RoomForOne(job);
                Step::FindMtu
            }
        } else {
            self.start(job)
        }
    }

    fn start_one(&mut self, job: Job) -> (step: Step)
        requires
            old(self).wf(),
            old(self)@.caps.contains_key(addr_key(job@.peer)),
        ensures
            final(self).wf(),
            (final(self)@, step@) == start_one(old(self)@, job@),
    {
        if job.header.frame_type == FrameType::HandshakeRequest {
            let payload = copy_bytes(job.payload.as_slice());
            self.phase = Phase::HandshakeForOne(job);
            Step::ParseHandshake(payload)
        } else {
            let request = Request::Runtime(job.header.request_id);
            self.phase = Phase::EntryForOne(job, request);
            Step::FetchEntry
        }
    }

    fn start(&mut self, job: Job) -> (step: Step)
        requires
            old(self).wf(),
        ensures
            final(self).wf(),
            (final(self)@, step@) == start(old(self)@, job@),
    {
        match request_step(job.header, job.payload.as_slice()) {
            RequestStep::ParseHandshake => {
                let payload = copy_bytes(job.payload.as_slice());
                self.phase = Phase::Parsing(job);
                Step::ParseHandshake(payload)
            },
            RequestStep::ParseQuery => {
                let payload = copy_bytes(job.payload.as_slice());
                self.phase = Phase::Parsing(job);
                Step::ParseQuery(payload)
            },
            RequestStep::Known(request) => {
                self.phase = Phase::Entry(job, request);
                Step::FetchEntry
            },
            RequestStep::Unexpected(t) => {
                self.phase = Phase::Idle;
                Step::FrameFailed(TransportError::UnexpectedFrameType(t))
            },
        }
    }

    fn take_phase(&mut self) -> (r: Phase)
        requires
            old(self).wf(),
        ensures
            final(self).wf(),
            final(self)@ == (ServerView { phase: PhaseView::Idle, ..old(self)@ }),
            r@ == old(self)@.phase,
    {
        let mut phase = Phase::Idle;
        std::mem::swap(&mut phase, &mut self.phase);
        phase
    }

    /// The link size of the route to the peer has been looked for.
    pub fn on_mtu(&mut self, mtu: Option<usize>) -> (step: Step)
        requires
            old(self).wf(),
            old(self)@.phase is RoomForOne || old(self)@.phase is RoomForAnswer,
        ensures
            final(self).wf(),
            (final(self)@, step@) == after_mtu(old(self)@, mtu),
    {
        match self.take_phase() {
            Phase::RoomForOne(job) => {
                let room = effective_udp_payload_capacity(job.peer.ipv4, self.configured_mtu, mtu);
                let key = job.peer.key();
                self.payload_caps.insert(key.as_str(), room);
                self.start_one(job)
            },
            Phase::RoomForAnswer(job, answer) => {
                let room = effective_udp_payload_capacity(job.peer.ipv4, self.configured_mtu, mtu);
                let key = job.peer.key();
                self.payload_caps.insert(key.as_str(), room);
                answer_datagrams(answer.as_slice(), room)
            },
            _ => Step::Next,
        }
    }

    /// The handshake request has been read.
    pub fn on_handshake(&mut self, parsed: Result<HandshakeRequest, String>) -> (step: Step)
        requires
            old(self).wf(),
            old(self)@.phase is HandshakeForOne || old(self)@.phase is Parsing,
        ensures
            final(self).wf(),
            ({
                let id = match old(self)@.phase {
                    PhaseView::HandshakeForOne(job) => job.header.request_id,
                    PhaseView::Parsing(job) => job.header.request_id,
                    _ => 0,
                };
                (final(self)@, step@) == after_request(old(self)@, handshake_asks(id, parsed))
            }),
    {
        match self.take_phase() {
            Phase::HandshakeForOne(job) => {
                match handshake_request(job.header.request_id, parsed) {
                    Ok(request) => {
                        self.phase = Phase::EntryForOne(job, request);
                        Step::FetchEntry
                    },
                    Err(e) => Step::FrameFailed(e),
                }
            },
            Phase::Parsing(job) => {
                match handshake_request(job.header.request_id, parsed) {
                    Ok(request) => {
                        self.phase = Phase::Entry(job, request);
                        Step::FetchEntry
                    },
                    Err(e) => Step::FrameFailed(e),
                }
            },
            _ => Step::Next,
        }
    }

    /// The query request has been read.
    pub fn on_query(&mut self, parsed: Result<QueryRequest, String>) -> (step: Step)
        requires
            old(self).wf(),
            old(self)@.phase is Parsing,
        ensures
            final(self).wf(),
            (final(self)@, step@) == after_request(old(self)@, query_asks(parsed)),
    {
        match self.take_phase() {
            Phase::Parsing(job) => {
                match query_request(parsed) {
                    Ok(request) => {
                        self.phase = Phase::Entry(job, request);
                        Step::FetchEntry
                    },
                    Err(e) => Step::FrameFailed(e),
                }
            },
            _ => Step::Next,
        }
    }

    /// The cache entry is there.
    pub fn on_entry(&mut self, entry: Result<CacheEntry, ErrorCode>) -> (step: Step)
        requires
            old(self).wf(),
            old(self)@.phase is EntryForOne || old(self)@.phase is Entry,
            entry matches Ok(e) ==> entry_ok(e@),
        ensures
            final(self).wf(),
            after_entry(old(self)@, entry_result(entry), final(self)@, step@),
    {
        match self.take_phase() {
            Phase::EntryForOne(job, request) => {
                let key = job.peer.key();
                let room: usize = match self.payload_caps.get(key.as_str()) {
                    Some(r) => *r,
                    None => 0,
                };
                match reply_datagram(request, &entry, room) {
                    Ok(Some(d)) => send_one(d),
                    Ok(None) => self.start(job),
                    Err(e) => Step::FrameFailed(e),
                }
            },
            Phase::Entry(job, request) => {
                match reply_frame(request, &entry) {
                    Ok(answer) => {
                        let key = job.peer.key();
                        match self.payload_caps.get(key.as_str()) {
                            Some(room) => answer_datagrams(answer.as_slice(), *room),
                            None => {
                                self.phase = Phase::RoomForAnswer(job, answer);
                                Step::FindMtu
                            },
                        }
                    },
                    Err(e) => Step::FrameFailed(e),
                }
            },
            _ => Step::Next,
        }
    }
}

// ---------------------------------------------------------------------------
// Laws

/// What a peer sends does not touch the chunks of another.
pub proof fn law_peers_are_apart(
    s: ServerView,
    peer: AddrView,
    other: Seq<char>,
    datagram: Seq<u8>,
    now_ms: u64,
)
    requires
        other != addr_key(peer),
    ensures
        ({
            let next = after_datagram(s, peer, datagram, now_ms).0;
            &&& next.chunks.contains_key(other) == s.chunks.contains_key(other)
            &&& s.chunks.contains_key(other) ==> next.chunks[other] == s.chunks[other]
            &&& next.caps == s.caps
        }),
{
}

/// A step that asks for something leaves the server waiting for it, and every
/// other step leaves it ready for a datagram.
pub proof fn law_steps_and_phases_agree(s: ServerView, peer: AddrView, datagram: Seq<u8>, now_ms: u64)
    requires
        s.phase is Idle,
    ensures
        ({
            let (next, step) = after_datagram(s, peer, datagram, now_ms);
            match step {
                StepView::FindMtu => next.phase is RoomForOne,
                StepView::ParseHandshake(_) => next.phase is HandshakeForOne,
                StepView::ParseQuery(_) => next.phase is Parsing,
                StepView::FetchEntry => next.phase is EntryForOne,
                _ => next.phase is Idle,
            }
        }),
{
}

/// What happens to the server.
pub enum Event {
    Datagram(AddrView, Seq<u8>, u64),
    Mtu(Option<usize>),
    /// A request was read.
    Asked(Result<Request, TransportError>),
    Entry(Result<EntryView, ErrorCode>),
}

/// Whether state and step are right after an event that the server waits for.
pub open spec fn happens(s: ServerView, event: Event, next: ServerView, step: StepView) -> bool {
    match event {
        Event::Datagram(peer, datagram, now_ms) => s.phase is Idle && (next, step)
            == after_datagram(s, peer, datagram, now_ms),
        Event::Mtu(mtu) => (s.phase is RoomForOne || s.phase is RoomForAnswer) && (next, step)
            == after_mtu(s, mtu),
        Event::Asked(asked) => (s.phase is HandshakeForOne || s.phase is Parsing) && (next, step)
            == after_request(s, asked),
        Event::Entry(entry) => (s.phase is EntryForOne || s.phase is Entry) && after_entry(
            s,
            entry,
            next,
            step,
        ),
    }
}

/// The peer that is being answered.
pub open spec fn peer_of(phase: PhaseView) -> Option<AddrView> {
    match phase {
        PhaseView::Idle => None,
        PhaseView::RoomForOne(job) => Some(job.peer),
        PhaseView::HandshakeForOne(job) => Some(job.peer),
        PhaseView::EntryForOne(job, _) => Some(job.peer),
        PhaseView::Parsing(job) => Some(job.peer),
        PhaseView::Entry(job, _) => Some(job.peer),
        PhaseView::RoomForAnswer(job, _) => Some(job.peer),
    }
}

/// Whether an address is written as addresses are: no IPv4 address begins with
/// a bracket.
pub open spec fn well_written(addr: AddrView) -> bool {
    addr.ipv4 ==> addr.ip.len() > 0 && addr.ip[0] != '['
}

/// Whether the room that is noted under a text is the room for the peers with
/// that text.
pub open spec fn room_noted(s: ServerView, key: Seq<char>) -> bool {
    forall|peer: AddrView|
        well_written(peer) && #[trigger] addr_key(peer) == key ==> s.caps[key] == room_for(
            s,
            peer,
            None,
        )
}

/// Whether the rooms are right that are noted where the link size is
/// configured, the peer that is being answered is written as addresses are, and
/// its room is known where an answer in one datagram is made.
pub open spec fn rooms_right(s: ServerView) -> bool {
    &&& s.configured_mtu > 0
    &&& forall|key: Seq<char>| #[trigger] s.caps.contains_key(key) ==> room_noted(s, key)
    &&& peer_of(s.phase) matches Some(peer) ==> well_written(peer)
    &&& match s.phase {
        PhaseView::HandshakeForOne(job) => s.caps.contains_key(addr_key(job.peer)),
        PhaseView::EntryForOne(job, _) => s.caps.contains_key(addr_key(job.peer)),
        _ => true,
    }
}

/// A fresh server has noted no room.
pub proof fn law_fresh_rooms_are_right(s: ServerView)
    requires
        s.configured_mtu > 0,
        s.caps == Map::<Seq<char>, usize>::empty(),
        s.phase is Idle,
    ensures
        rooms_right(s),
{
}

proof fn lemma_same_key(a: AddrView, b: AddrView)
    requires
        well_written(a),
        well_written(b),
        addr_key(a) == addr_key(b),
    ensures
        a.ipv4 == b.ipv4,
{
    reveal_strlit("[");
    assert(!a.ipv4 ==> addr_key(a)[0] == '[');
    assert(!b.ipv4 ==> addr_key(b)[0] == '[');
    assert(a.ipv4 ==> addr_key(a)[0] == a.ip[0]);
    assert(b.ipv4 ==> addr_key(b)[0] == b.ip[0]);
}

/// Whether every datagram is at most a chunk header longer than the room.
pub open spec fn all_fit(datagrams: Seq<Seq<u8>>, room: usize) -> bool {
    forall|i: int|
        0 <= i < datagrams.len() ==> (#[trigger] datagrams[i]).len() <= UDP_CHUNK_HEADER_LEN + room
}

proof fn lemma_datagrams_fit(answer: Seq<u8>, room: usize)
    requires
        room > 0,
    ensures
        datagrams_for(answer, room) matches StepView::Send(v) ==> all_fit(v, room),
        !(datagrams_for(answer, room) is FindMtu),
{
    if answer.len() <= room {
        if let Ok(d) = spec_encode_single(answer) {
            lemma_single_len(answer, spec_decode_frame(answer)->Ok_0.0);
        }
    } else if cutting_fault(answer, room as nat) is None {
        let header = spec_decode_frame(answer)->Ok_0.0;
        assert forall|i: int| 0 <= i < chunk_count(answer.len(), room as nat) implies
            #[trigger] chunk_datagram(answer, header, room as nat, i).len() <= UDP_CHUNK_HEADER_LEN
            + room by {
            lemma_chunk_bounds(answer.len(), room as nat, i);
            lemma_chunk_header_bytes(chunk_header(answer, header, room as nat, i));
        }
    }
}

proof fn lemma_rooms_stay_noted(s: ServerView, event: Event, next: ServerView, step: StepView)
    requires
        rooms_right(s),
        happens(s, event, next, step),
    ensures
        next.configured_mtu == s.configured_mtu,
        forall|key: Seq<char>| #[trigger] next.caps.contains_key(key) ==> room_noted(next, key),
{
    assert forall|key: Seq<char>| #[trigger] next.caps.contains_key(key) implies room_noted(
        next,
        key,
    ) by {
        assert forall|peer: AddrView|
            well_written(peer) && #[trigger] addr_key(peer) == key implies next.caps[key]
            == room_for(next, peer, None) by {
            if s.caps.contains_key(key) {
                assert(room_noted(s, key));
            }
            if let Event::Mtu(mtu) = event {
                let asked = peer_of(s.phase)->0;
                if addr_key(asked) == key {
                    lemma_same_key(asked, peer);
                }
            }
        }
    }
}

proof fn lemma_sends_fit(s: ServerView, event: Event, next: ServerView, step: StepView)
    requires
        rooms_right(s),
        happens(s, event, next, step),
    ensures
        step matches StepView::Send(v) ==> next.phase is Idle && all_fit(
            v,
            room_for(s, peer_of(s.phase)->0, None),
        ),
{
    if let Some(peer) = peer_of(s.phase) {
        let room = room_for(s, peer, None);
        let key = addr_key(peer);
        if s.caps.contains_key(key) {
            assert(room_noted(s, key));
        }
        match event {
            Event::Mtu(mtu) => {
                if let PhaseView::RoomForAnswer(job, answer) = s.phase {
                    lemma_datagrams_fit(answer, room);
                }
            },
            Event::Entry(entry) => {
                match s.phase {
                    PhaseView::EntryForOne(job, request) => {
                        if let Some((t, p)) = reply(request, entry) {
                            let header = FrameHeader {
                                version: PROTOCOL_VERSION,
                                frame_type: t,
                                request_id: request.spec_id(),
                                payload_len: p.len() as u32,
                            };
                            lemma_single_len(frame_bytes(header, p), header);
                            lemma_header_bytes(header.with_len(p.len()));
                        }
                    },
                    PhaseView::Entry(job, request) => {
                        if let Some((t, p)) = reply(request, entry) {
                            lemma_datagrams_fit(
                                frame_bytes(header_for(t, request.spec_id()), p),
                                room,
                            );
                        }
                    },
                    _ => {},
                }
            },
            _ => {},
        }
    }
}

/// Where the link size is configured, the room that is noted for a peer stays
/// the effective room for it. Datagrams go to the sender of the datagram that
/// came in last, when its frame has been read and the entry is there, and none
/// is longer than a chunk header and that room; after them the server is ready
/// for the next.
#[verifier::rlimit(40)]
pub proof fn law_datagrams_fit_the_room(s: ServerView, event: Event, next: ServerView, step: StepView)
    requires
        rooms_right(s),
        happens(s, event, next, step),
        event matches Event::Datagram(peer, _, _) ==> well_written(peer),
    ensures
        rooms_right(next),
        next.configured_mtu == s.configured_mtu,
        event matches Event::Datagram(peer, _, _) ==> !(step is Send) && (peer_of(
            next.phase,
        ) matches Some(p) ==> p == peer),
        !(event is Datagram) ==> peer_of(s.phase) is Some && (next.phase is Idle || peer_of(
            next.phase,
        ) == peer_of(s.phase)),
        step matches StepView::Send(v) ==> next.phase is Idle && all_fit(
            v,
            room_for(s, peer_of(s.phase)->0, None),
        ),
{
    lemma_rooms_stay_noted(s, event, next, step);
    lemma_sends_fit(s, event, next, step);
}

proof fn lemma_single_len(frame: Seq<u8>, header: FrameHeader)
    ensures
        single_datagram(frame, header).len() == UDP_CHUNK_HEADER_LEN + frame.len(),
{
    lemma_chunk_header_bytes(
        UdpChunkHeader {
            version: PROTOCOL_VERSION,
            frame_type: header.frame_type,
            request_id: header.request_id,
            frame_len: frame.len() as u32,
            chunk_id: 0,
            total_chunks: 1,
            payload_len: frame.len() as u16,
            prev_checksum: crc32(frame),
            next_checksum: crc32(frame),
        },
    );
}

/// The frame that a datagram brings, if it does.
pub open spec fn frame_brought(s: ServerView, peer: AddrView, datagram: Seq<u8>, now_ms: u64) -> Option<
    Seq<u8>,
> {
    match spec_decode_single(datagram) {
        Ok(Some(frame)) => Some(frame),
        Ok(None) => match outcome(chunks_of(s, addr_key(peer), now_ms).groups, datagram) {
            Ok(frame) => frame,
            Err(_) => None,
        },
        Err(_) => None,
    }
}

/// Only handshakes and queries are answered: after a datagram that brings no
/// frame, because it is malformed or others are missing, and after one that
/// brings another frame or none that can be read, the server is ready for the
/// next datagram.
pub proof fn law_only_requests_are_answered(
    s: ServerView,
    peer: AddrView,
    datagram: Seq<u8>,
    now_ms: u64,
)
    requires
        s.phase is Idle,
    ensures
        ({
            let (next, step) = after_datagram(s, peer, datagram, now_ms);
            let asks = frame_brought(s, peer, datagram, now_ms) matches Some(frame)
                && spec_decode_frame(frame) matches Ok((header, _)) && (header.frame_type
                == FrameType::HandshakeRequest || header.frame_type == FrameType::QueryRequest);
            &&& asks <==> !(next.phase is Idle)
            &&& !(step is Send)
        }),
{
}

} // verus!
