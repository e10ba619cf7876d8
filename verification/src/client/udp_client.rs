//! The datagram side of a client: sending a frame and waiting for the reply.

use vstd::prelude::*;
use crate::client::reply::{ClientError, DecodeFault};
use crate::common::frame::{decode_frame, spec_decode_frame, FrameType};
use crate::common::reassembly::{
    all_arrivals, all_arrived, can_arrive, groups_after, groups_after_all, law_chunks_in_any_order,
    lemma_arrival_reads_back, outcome, Arrival, GroupView, UdpFrameReassembler,
};
use crate::common::udp::{
    chunk, chunk_count, chunk_datagram, cutting_fault, decode_udp_single_chunk, encode_udp_chunks,
    encode_udp_single_chunk, encode_udp_single_chunk_from_parts, spec_decode_single,
    spec_encode_parts, spec_encode_single, UdpChunkError,
};

verus! {

/// The bytes of several datagrams.
pub open spec fn all_bytes(v: Seq<Vec<u8>>) -> Seq<Seq<u8>> {
    v.map_values(|d: Vec<u8>| d@)
}

/// The datagrams for a frame: one if it fits, else its chunks.
pub open spec fn frame_datagrams(frame: Seq<u8>, max_payload: usize) -> Result<
    Seq<Seq<u8>>,
    UdpChunkError,
> {
    if frame.len() <= max_payload {
        match spec_encode_single(frame) {
            Ok(d) => Ok(seq![d]),
            Err(e) => Err(e),
        }
    } else {
        match cutting_fault(frame, max_payload as nat) {
            Some(e) => Err(e),
            None => Ok(
                Seq::new(
                    chunk_count(frame.len(), max_payload as nat),
                    |i: int|
                        chunk_datagram(
                            frame,
                            spec_decode_frame(frame)->Ok_0.0,
                            max_payload as nat,
                            i,
                        ),
                ),
            ),
        }
    }
}

/// The datagrams for a frame.
pub fn datagrams_for_frame(frame: &[u8], max_payload: usize) -> (r: Result<
    Vec<Vec<u8>>,
    UdpChunkError,
>)
    ensures
        match r {
            Ok(v) => frame_datagrams(frame@, max_payload) == Ok::<Seq<Seq<u8>>, UdpChunkError>(
                all_bytes(v@),
            ),
            Err(e) => frame_datagrams(frame@, max_payload) == Err::<Seq<Seq<u8>>, UdpChunkError>(e),
        },
{
    if frame.len() <= max_payload {
        match encode_udp_single_chunk(frame) {
            Ok(d) => {
                let mut v: Vec<Vec<u8>> = Vec::new();
                v.push(d);
                assert(all_bytes(v@) =~= seq![d@]);
                Ok(v)
            },
            Err(e) => Err(e),
        }
    } else {
        match encode_udp_chunks(frame, max_payload) {
            Ok(v) => {
                proof {
                    let wanted = frame_datagrams(frame@, max_payload)->Ok_0;
                    assert(all_bytes(v@) =~= wanted);
                }
                Ok(v)
            },
            Err(e) => Err(e),
        }
    }
}

/// The datagram that asks for the runtime part without a payload.
pub fn empty_query_datagram(request_id: u64) -> (r: Result<Vec<u8>, UdpChunkError>)
    ensures
        match r {
            Ok(d) => spec_encode_parts(FrameType::QueryRequest, request_id, Seq::empty()) == Ok::<
                Seq<u8>,
                UdpChunkError,
            >(d@),
            Err(e) => spec_encode_parts(FrameType::QueryRequest, request_id, Seq::empty()) == Err::<
                Seq<u8>,
                UdpChunkError,
            >(e),
        },
{
    let none: Vec<u8> = Vec::new();
    assert(none@ =~= Seq::empty());
    encode_udp_single_chunk_from_parts(FrameType::QueryRequest, request_id, none.as_slice())
}

/// A client that waits for the reply with a given id.
pub struct UdpReceiver {
    request_id: u64,
    timeout_ms: u64,
    deadline_ms: u64,
    reassembler: Option<UdpFrameReassembler>,
}

pub struct ReceiverView {
    pub request_id: u64,
    pub timeout_ms: u64,
    pub deadline_ms: u64,
    /// The chunks so far and until when they count, once a chunk has come in.
    pub chunks: Option<(Map<u64, GroupView>, u64)>,
}

impl View for UdpReceiver {
    type V = ReceiverView;

    closed spec fn view(&self) -> ReceiverView {
        ReceiverView {
            request_id: self.request_id,
            timeout_ms: self.timeout_ms,
            deadline_ms: self.deadline_ms,
            chunks: match self.reassembler {
                Some(r) => Some((r@, r.deadline())),
                None => None,
            },
        }
    }
}

/// `now` plus the timeout, at most the largest number.
pub open spec fn deadline_after(now_ms: u64, timeout_ms: u64) -> u64 {
    if now_ms + timeout_ms > u64::MAX {
        u64::MAX
    } else {
        (now_ms + timeout_ms) as u64
    }
}

/// The chunks before a datagram: none if it is the first chunk.
pub open spec fn chunks_before(s: ReceiverView, now_ms: u64) -> (Map<u64, GroupView>, u64) {
    match s.chunks {
        Some(c) => c,
        None => (Map::empty(), deadline_after(now_ms, s.timeout_ms)),
    }
}

/// What a complete frame means: it is the reply, or passed over.
pub open spec fn is_reply(frame: Seq<u8>, request_id: u64) -> Result<Option<Seq<u8>>, ClientError> {
    match spec_decode_frame(frame) {
        Err(e) => Err(ClientError::Decode(DecodeFault::Frame(e))),
        Ok((header, _)) => if header.request_id == request_id {
            Ok(Some(frame))
        } else {
            Ok(None)
        },
    }
}

/// The receiver after a datagram.
pub open spec fn receiver_after(s: ReceiverView, datagram: Seq<u8>, now_ms: u64) -> ReceiverView {
    match spec_decode_single(datagram) {
        Ok(None) => {
            let before = chunks_before(s, now_ms);
            ReceiverView { chunks: Some((groups_after(before.0, datagram), before.1)), ..s }
        },
        _ => s,
    }
}

/// What a datagram brings: the reply, nothing yet, or a fault.
pub open spec fn received(s: ReceiverView, datagram: Seq<u8>, now_ms: u64) -> Result<
    Option<Seq<u8>>,
    ClientError,
> {
    match spec_decode_single(datagram) {
        Err(e) => Err(ClientError::Decode(DecodeFault::Chunk(e))),
        Ok(Some(frame)) => is_reply(frame, s.request_id),
        Ok(None) => match outcome(chunks_before(s, now_ms).0, datagram) {
            Err(e) => Err(ClientError::Decode(DecodeFault::Chunk(e))),
            Ok(None) => Ok(None),
            Ok(Some(frame)) => is_reply(frame, s.request_id),
        },
    }
}

impl UdpReceiver {
    pub closed spec fn wf(&self) -> bool {
        self.reassembler matches Some(r) ==> r.wf()
    }

    /// A receiver that waits for as long as the timeout.
    pub fn new(request_id: u64, now_ms: u64, timeout_ms: u64) -> (r: UdpReceiver)
        ensures
            r.wf(),
            r@ == (ReceiverView {
                request_id,
                timeout_ms,
                deadline_ms: deadline_after(now_ms, timeout_ms),
                chunks: None,
            }),
    {
        UdpReceiver {
            request_id,
            timeout_ms,
            deadline_ms: now_ms.saturating_add(timeout_ms),
            reassembler: None,
        }
    }

    /// Whether the receiver still waits.
    pub fn waiting(&self, now_ms: u64) -> (r: bool)
        ensures
            r == (now_ms < self@.deadline_ms && (self@.chunks matches Some((_, deadline))
                ==> now_ms < deadline)),
    {
        if now_ms >= self.deadline_ms {
            return false;
        }
        match &self.reassembler {
            Some(r) => !r.is_expired(now_ms),
            None => true,
        }
    }

    fn check(&self, frame: Vec<u8>) -> (r: Result<Option<Vec<u8>>, ClientError>)
        ensures
            match r {
                Ok(Some(f)) => is_reply(frame@, self@.request_id) == Ok::<
                    Option<Seq<u8>>,
                    ClientError,
                >(Some(f@)),
                Ok(None) => is_reply(frame@, self@.request_id) == Ok::<
                    Option<Seq<u8>>,
                    ClientError,
                >(None),
                Err(e) => is_reply(frame@, self@.request_id) == Err::<
                    Option<Seq<u8>>,
                    ClientError,
                >(e),
            },
    {
        let id: u64 = match decode_frame(frame.as_slice()) {
            Ok((header, _)) => header.request_id,
            Err(e) => {
                return Err(ClientError::Decode(DecodeFault::Frame(e)));
            },
        };
        if id == self.request_id {
            Ok(Some(frame))
        } else {
            Ok(None)
        }
    }

    /// A datagram has come in.
    pub fn on_datagram(&mut self, datagram: &[u8], now_ms: u64) -> (r: Result<
        Option<Vec<u8>>,
        ClientError,
    >)
        requires
            old(self).wf(),
        ensures
            final(self).wf(),
            final(self)@ == receiver_after(old(self)@, datagram@, now_ms),
            match r {
                Ok(Some(f)) => received(old(self)@, datagram@, now_ms) == Ok::<
                    Option<Seq<u8>>,
                    ClientError,
                >(Some(f@)),
                Ok(None) => received(old(self)@, datagram@, now_ms) == Ok::<
                    Option<Seq<u8>>,
                    ClientError,
                >(None),
                Err(e) => received(old(self)@, datagram@, now_ms) == Err::<
                    Option<Seq<u8>>,
                    ClientError,
                >(e),
            },
    {
        match decode_udp_single_chunk(datagram) {
            Err(e) => {
                return Err(ClientError::Decode(DecodeFault::Chunk(e)));
            },
            Ok(Some(frame)) => {
                return self.check(frame);
            },
            Ok(None) => {},
        }
        let ghost before = self@;
        let mut taken: Option<UdpFrameReassembler> = None;
        std::mem::swap(&mut taken, &mut self.reassembler);
        let mut reassembler = match taken {
            Some(r) => r,
            None => UdpFrameReassembler::new(now_ms, self.timeout_ms),
        };
        assert((reassembler@, reassembler.deadline()) == chunks_before(before, now_ms));
        let result = reassembler.insert(datagram);
        self.reassembler = Some(reassembler);
        match result {
            Ok(Some(frame)) => self.check(frame),
            Ok(None) => Ok(None),
            Err(e) => Err(ClientError::Decode(DecodeFault::Chunk(e))),
        }
    }
}

/// The error where nothing has come in for as long as the timeout.
pub fn wait_timeout() -> (r: ClientError)
    ensures
        r matches ClientError::Io(s) && s@ == "timeout while waiting for UDP frame"@,
{
    ClientError::Io("timeout while waiting for UDP frame".to_owned())
}

/// The error where the receiver no longer waits.
pub fn reassembly_timeout() -> (r: ClientError)
    ensures
        r matches ClientError::Io(s) && s@ == "timeout while reassembling UDP frame"@,
{
    ClientError::Io("timeout while reassembling UDP frame".to_owned())
}

/// The ids of a connection: one for each request, in turn.
pub fn next_request_id(next: &mut u64) -> (r: u64)
    ensures
        r == *old(next),
        *final(next) == (*old(next)).wrapping_add(1),
{
    let id: u64 = *next;
    *next = id.wrapping_add(1);
    id
}

// ---------------------------------------------------------------------------
// Laws

/// A reply in one datagram is received, and one to another request is passed
/// over; neither touches the chunks so far.
pub proof fn law_reply_in_one_is_received(s: ReceiverView, frame: Seq<u8>, now_ms: u64)
    requires
        spec_encode_single(frame) is Ok,
    ensures
        ({
            let d = spec_encode_single(frame)->Ok_0;
            &&& spec_decode_frame(frame) is Ok
            &&& received(s, d, now_ms) == Ok::<Option<Seq<u8>>, ClientError>(
                if spec_decode_frame(frame)->Ok_0.0.request_id == s.request_id {
                    Some(frame)
                } else {
                    None
                },
            )
            &&& receiver_after(s, d, now_ms) == s
        }),
{
    crate::common::udp::law_single_chunk_reads_back(frame);
}

/// The receiver after several datagrams.
pub open spec fn receiver_after_all(
    s: ReceiverView,
    datagrams: Seq<Seq<u8>>,
    now_ms: u64,
) -> ReceiverView
    decreases datagrams.len(),
{
    if datagrams.len() == 0 {
        s
    } else {
        receiver_after(
            receiver_after_all(s, datagrams.drop_last(), now_ms),
            datagrams.last(),
            now_ms,
        )
    }
}

/// The chunks of the given numbers, arriving in that order.
pub open spec fn in_order(order: Seq<int>) -> Seq<Arrival> {
    order.map_values(|i: int| Arrival::Chunk(i))
}

/// A reply that was cut into several datagrams is received at the moment at
/// which none is missing, in whatever order and however often they come.
pub proof fn law_cut_reply_is_received(
    s: ReceiverView,
    frame: Seq<u8>,
    max_payload: nat,
    order: Seq<int>,
    last: int,
    now_ms: u64,
)
    requires
        cutting_fault(frame, max_payload) is None,
        max_payload <= u16::MAX,
        chunk_count(frame.len(), max_payload) > 1,
        spec_decode_frame(frame)->Ok_0.0.request_id == s.request_id,
        !chunks_before(s, now_ms).0.contains_key(s.request_id),
        forall|k: int|
            0 <= k < order.len() ==> 0 <= #[trigger] order[k] < chunk_count(
                frame.len(),
                max_payload,
            ),
        0 <= last < chunk_count(frame.len(), max_payload),
    ensures
        ({
            let header = spec_decode_frame(frame)->Ok_0.0;
            let before = receiver_after_all(
                s,
                all_arrivals(frame, header, max_payload, in_order(order)),
                now_ms,
            );
            received(before, chunk_datagram(frame, header, max_payload, last), now_ms) == Ok::<
                Option<Seq<u8>>,
                ClientError,
            >(
                if all_arrived(frame, max_payload, in_order(order.push(last))) {
                    Some(frame)
                } else {
                    None
                },
            )
        }),
{
    let header = spec_decode_frame(frame)->Ok_0.0;
    let groups = chunks_before(s, now_ms).0;
    lemma_chunks_so_far(s, frame, max_payload, order, now_ms);
    let arrivals = in_order(order);
    assert forall|k: int| 0 <= k < arrivals.len() implies can_arrive(
        frame,
        header,
        max_payload,
        #[trigger] arrivals[k],
    ) by {
        assert(0 <= order[k] < chunk_count(frame.len(), max_payload));
    }
    law_chunks_in_any_order(groups, frame, max_payload, arrivals, Arrival::Chunk(last));
    assert(in_order(order.push(last)) =~= arrivals.push(Arrival::Chunk(last)));
    lemma_arrival_reads_back(frame, header, max_payload, last, chunk(frame, max_payload, last));
}

proof fn lemma_chunks_so_far(
    s: ReceiverView,
    frame: Seq<u8>,
    max_payload: nat,
    order: Seq<int>,
    now_ms: u64,
)
    requires
        cutting_fault(frame, max_payload) is None,
        max_payload <= u16::MAX,
        chunk_count(frame.len(), max_payload) > 1,
        forall|k: int|
            0 <= k < order.len() ==> 0 <= #[trigger] order[k] < chunk_count(
                frame.len(),
                max_payload,
            ),
    ensures
        ({
            let header = spec_decode_frame(frame)->Ok_0.0;
            let datagrams = all_arrivals(frame, header, max_payload, in_order(order));
            let after = receiver_after_all(s, datagrams, now_ms);
            &&& after.request_id == s.request_id
            &&& chunks_before(after, now_ms).0 == groups_after_all(
                chunks_before(s, now_ms).0,
                datagrams,
            )
        }),
    decreases order.len(),
{
    let header = spec_decode_frame(frame)->Ok_0.0;
    let datagrams = all_arrivals(frame, header, max_payload, in_order(order));
    if order.len() > 0 {
        let rest = order.drop_last();
        assert forall|k: int| 0 <= k < rest.len() implies 0 <= #[trigger] rest[k] < chunk_count(
            frame.len(),
            max_payload,
        ) by {
            assert(rest[k] == order[k]);
        }
        lemma_chunks_so_far(s, frame, max_payload, rest, now_ms);
        assert(datagrams.drop_last() =~= all_arrivals(frame, header, max_payload, in_order(rest)));
        assert(order[order.len() - 1] == order.last());
        assert(datagrams.last() == chunk_datagram(frame, header, max_payload, order.last()));
        lemma_arrival_reads_back(
            frame,
            header,
            max_payload,
            order.last(),
            chunk(frame, max_payload, order.last()),
        );
    }
}

} // verus!
