//! Putting frames together from the chunks that arrive.

use vstd::prelude::*;
use std::collections::HashMap;
use crate::bytes::{copy_bytes, push_bytes};
use crate::common::crc::{checksum, crc32, differ_at, law_changed_byte_changes_the_checksum};
use crate::common::frame::{decode_frame, spec_decode_frame, FrameHeader, FrameType};
use crate::common::udp::{
    chunk, chunk_count, chunk_datagram, chunk_end, chunk_header, cutting_fault,
    law_chunk_header_reads_back, lemma_chunk_bounds, lemma_chunk_header_bytes, next_index,
    prev_index, UdpChunkError, UdpChunkHeader, UDP_CHUNK_HEADER_LEN,
};

verus! {

broadcast use vstd::std_specs::hash::group_hash_axioms;

/// A chunk that arrived.
struct ChunkSlot {
    payload: Vec<u8>,
    prev_checksum: u32,
    next_checksum: u32,
}

/// The chunks of one frame.
struct ChunkGroup {
    frame_type: FrameType,
    request_id: u64,
    frame_len: u32,
    total_chunks: u16,
    chunks: Vec<Option<ChunkSlot>>,
}

/// The chunks of the frames that have not timed out, by request id.
pub struct UdpFrameReassembler {
    deadline_ms: u64,
    groups: HashMap<u64, ChunkGroup>,
}

// ---------------------------------------------------------------------------
// Models

pub struct SlotView {
    pub payload: Seq<u8>,
    pub prev_checksum: u32,
    pub next_checksum: u32,
}

pub struct GroupView {
    pub frame_type: FrameType,
    pub frame_len: u32,
    pub slots: Seq<Option<SlotView>>,
}

impl View for ChunkSlot {
    type V = SlotView;

    closed spec fn view(&self) -> SlotView {
        SlotView {
            payload: self.payload@,
            prev_checksum: self.prev_checksum,
            next_checksum: self.next_checksum,
        }
    }
}

spec fn slot_view(s: Option<ChunkSlot>) -> Option<SlotView> {
    match s {
        Some(slot) => Some(slot@),
        None => None,
    }
}

impl View for ChunkGroup {
    type V = GroupView;

    closed spec fn view(&self) -> GroupView {
        GroupView {
            frame_type: self.frame_type,
            frame_len: self.frame_len,
            slots: self.chunks@.map_values(|s: Option<ChunkSlot>| slot_view(s)),
        }
    }
}

impl View for UdpFrameReassembler {
    type V = Map<u64, GroupView>;

    closed spec fn view(&self) -> Map<u64, GroupView> {
        self.groups@.map_values(|g: ChunkGroup| g@)
    }
}

/// Whether every chunk of a frame is there.
pub open spec fn all_there(slots: Seq<Option<SlotView>>) -> bool {
    forall|i: int| 0 <= i < slots.len() ==> (#[trigger] slots[i]) is Some
}

/// Whether the neighbours of chunk `i` have the checksums that it announces.
pub open spec fn neighbours_match(slots: Seq<Option<SlotView>>, i: int) -> bool {
    let n = slots.len() as int;
    let slot = slots[i]->0;
    &&& crc32(slots[prev_index(i, n)]->0.payload) == slot.prev_checksum
    &&& crc32(slots[next_index(i, n)]->0.payload) == slot.next_checksum
}

/// Whether the chunks have the checksums that their neighbours announce.
pub open spec fn all_match(slots: Seq<Option<SlotView>>) -> bool {
    forall|i: int| 0 <= i < slots.len() ==> #[trigger] neighbours_match(slots, i)
}

/// The payloads of the chunks, one behind the other.
pub open spec fn joined(slots: Seq<Option<SlotView>>) -> Seq<u8>
    decreases slots.len(),
{
    if slots.len() == 0 {
        Seq::empty()
    } else {
        joined(slots.drop_last()) + slots.last()->0.payload
    }
}

/// The frame that complete chunks make up, or why they make up none.
pub open spec fn assembled(group: GroupView, request_id: u64) -> Result<Seq<u8>, UdpChunkError> {
    let all = joined(group.slots);
    let frame = if all.len() > group.frame_len {
        all.take(group.frame_len as int)
    } else {
        all
    };
    if !all_match(group.slots) {
        Err(UdpChunkError::ChecksumMismatch)
    } else {
        match spec_decode_frame(frame) {
            Err(e) => Err(UdpChunkError::Frame(e)),
            Ok((header, _)) => if header.frame_type != group.frame_type || header.request_id
                != request_id {
                Err(UdpChunkError::MetadataMismatch)
            } else {
                Ok(frame)
            },
        }
    }
}

/// The group before its first chunk.
pub open spec fn empty_group(header: UdpChunkHeader) -> GroupView {
    GroupView {
        frame_type: header.frame_type,
        frame_len: header.frame_len,
        slots: Seq::new(header.total_chunks as nat, |i: int| None),
    }
}

/// The group with the given request id, an empty one if there is none.
pub open spec fn group_for(groups: Map<u64, GroupView>, header: UdpChunkHeader) -> GroupView {
    if groups.contains_key(header.request_id) {
        groups[header.request_id]
    } else {
        empty_group(header)
    }
}

/// Whether a chunk is of the frame that a group collects.
pub open spec fn belongs(group: GroupView, header: UdpChunkHeader) -> bool {
    &&& header.frame_type == group.frame_type
    &&& header.frame_len == group.frame_len
    &&& header.total_chunks == group.slots.len()
}

/// The group with one more chunk.
pub open spec fn with_chunk(group: GroupView, header: UdpChunkHeader, payload: Seq<u8>) -> GroupView {
    GroupView {
        slots: group.slots.update(
            header.chunk_id as int,
            Some(
                SlotView {
                    payload,
                    prev_checksum: header.prev_checksum,
                    next_checksum: header.next_checksum,
                },
            ),
        ),
        ..group
    }
}

/// The groups after a datagram.
pub open spec fn groups_after(groups: Map<u64, GroupView>, datagram: Seq<u8>) -> Map<
    u64,
    GroupView,
> {
    match UdpChunkHeader::spec_decode(datagram) {
        Err(_) => groups,
        Ok(header) => {
            let group = group_for(groups, header);
            if belongs(group, header) {
                groups.insert(
                    header.request_id,
                    with_chunk(group, header, datagram.skip(UDP_CHUNK_HEADER_LEN as int)),
                )
            } else {
                groups
            }
        },
    }
}

/// What a datagram completes: nothing yet, a frame, or a fault.
pub open spec fn outcome(groups: Map<u64, GroupView>, datagram: Seq<u8>) -> Result<
    Option<Seq<u8>>,
    UdpChunkError,
> {
    match UdpChunkHeader::spec_decode(datagram) {
        Err(e) => Err(e),
        Ok(header) => {
            let group = group_for(groups, header);
            if !belongs(group, header) {
                Err(UdpChunkError::MetadataMismatch)
            } else {
                let next = with_chunk(group, header, datagram.skip(UDP_CHUNK_HEADER_LEN as int));
                if !all_there(next.slots) {
                    Ok(None)
                } else {
                    match assembled(next, header.request_id) {
                        Ok(frame) => Ok(Some(frame)),
                        Err(e) => Err(e),
                    }
                }
            }
        },
    }
}

// ---------------------------------------------------------------------------
// Groups

impl ChunkGroup {
    spec fn wf(&self) -> bool {
        self.chunks@.len() == self.total_chunks && self.total_chunks > 0
    }

    fn new(frame_type: FrameType, request_id: u64, frame_len: u32, total_chunks: u16) -> (r: ChunkGroup)
        requires
            total_chunks > 0,
        ensures
            r.wf(),
            r.request_id == request_id,
            r@ == (GroupView {
                frame_type,
                frame_len,
                slots: Seq::new(total_chunks as nat, |i: int| None),
            }),
    {
        let mut chunks: Vec<Option<ChunkSlot>> = Vec::new();
        let mut i: u16 = 0;
        while i < total_chunks
            invariant
                i <= total_chunks,
                chunks@.len() == i,
                forall|j: int| 0 <= j < i ==> (#[trigger] chunks@[j]) is None,
            decreases total_chunks - i,
        {
            chunks.push(None);
            i = i + 1;
        }
        let r = ChunkGroup { frame_type, request_id, frame_len, total_chunks, chunks };
        assert(r@.slots =~= Seq::new(total_chunks as nat, |i: int| None));
        r
    }

    fn is_complete(&self) -> (r: bool)
        ensures
            r == all_there(self@.slots),
    {
        let mut i: usize = 0;
        while i < self.chunks.len()
            invariant
                i <= self.chunks@.len(),
                forall|j: int| 0 <= j < i ==> (#[trigger] self@.slots[j]) is Some,
            decreases self.chunks@.len() - i,
        {
            assert(self@.slots[i as int] == slot_view(self.chunks@[i as int]));
            if self.chunks[i].is_none() {
                return false;
            }
            i = i + 1;
        }
        true
    }

    fn slot(&self, i: usize) -> (r: &ChunkSlot)
        requires
            i < self.chunks@.len(),
            all_there(self@.slots),
        ensures
            self@.slots[i as int] == Some(r@),
    {
        assert(self@.slots[i as int] == slot_view(self.chunks@[i as int]));
        self.chunks[i].as_ref().unwrap()
    }

    fn verify_all(&self) -> (r: Result<(), UdpChunkError>)
        requires
            all_there(self@.slots),
        ensures
            all_match(self@.slots) ==> r == Ok::<(), UdpChunkError>(()),
            !all_match(self@.slots) ==> r == Err::<(), UdpChunkError>(
                UdpChunkError::ChecksumMismatch,
            ),
    {
        let total: usize = self.chunks.len();
        let mut i: usize = 0;
        while i < total
            invariant
                i <= total == self.chunks@.len() == self@.slots.len(),
                all_there(self@.slots),
                forall|j: int| 0 <= j < i ==> #[trigger] neighbours_match(self@.slots, j),
            decreases total - i,
        {
            let slot = self.slot(i);
            let prev: usize = if i == 0 {
                total - 1
            } else {
                i - 1
            };
            let next: usize = if i + 1 == total {
                0
            } else {
                i + 1
            };
            let prev_slot = self.slot(prev);
            let next_slot = self.slot(next);
            if checksum(prev_slot.payload.as_slice()) != slot.prev_checksum || checksum(
                next_slot.payload.as_slice(),
            ) != slot.next_checksum {
                assert(!neighbours_match(self@.slots, i as int));
                return Err(UdpChunkError::ChecksumMismatch);
            }
            i = i + 1;
        }
        Ok(())
    }

    fn join(&self) -> (r: Vec<u8>)
        requires
            all_there(self@.slots),
        ensures
            r@ == joined(self@.slots),
    {
        let mut out: Vec<u8> = Vec::new();
        let mut i: usize = 0;
        assert(self@.slots.take(0) =~= Seq::empty());
        while i < self.chunks.len()
            invariant
                i <= self.chunks@.len(),
                all_there(self@.slots),
                out@ == joined(self@.slots.take(i as int)),
            decreases self.chunks@.len() - i,
        {
            let slot = self.slot(i);
            push_bytes(&mut out, slot.payload.as_slice());
            proof {
                let next = self@.slots.take(i + 1);
                assert(next.drop_last() =~= self@.slots.take(i as int));
                assert(next.last() == self@.slots[i as int]);
            }
            i = i + 1;
        }
        assert(self@.slots.take(i as int) =~= self@.slots);
        out
    }

    fn assemble(&self) -> (r: Result<Vec<u8>, UdpChunkError>)
        requires
            all_there(self@.slots),
        ensures
            match r {
                Ok(frame) => assembled(self@, self.request_id) == Ok::<Seq<u8>, UdpChunkError>(
                    frame@,
                ),
                Err(e) => assembled(self@, self.request_id) == Err::<Seq<u8>, UdpChunkError>(e),
            },
    {
        match self.verify_all() {
            Ok(()) => {},
            Err(e) => {
                return Err(e);
            },
        }
        let mut frame = self.join();
        let ghost all = frame@;
        frame.truncate(self.frame_len as usize);
        assert(frame@ =~= if all.len() > self.frame_len {
            all.take(self.frame_len as int)
        } else {
            all
        });
        match decode_frame(frame.as_slice()) {
            Ok((decoded, _)) => {
                if decoded.frame_type != self.frame_type || decoded.request_id != self.request_id {
                    return Err(UdpChunkError::MetadataMismatch);
                }
            },
            Err(e) => {
                return Err(UdpChunkError::Frame(e));
            },
        }
        Ok(frame)
    }

    fn insert(&mut self, header: UdpChunkHeader, payload: Vec<u8>) -> (r: Result<
        Option<Vec<u8>>,
        UdpChunkError,
    >)
        requires
            old(self).wf(),
            header.chunk_id < header.total_chunks,
            header.request_id == old(self).request_id,
        ensures
            final(self).wf(),
            final(self).request_id == old(self).request_id,
            !belongs(old(self)@, header) ==> final(self)@ == old(self)@ && r == Err::<
                Option<Vec<u8>>,
                UdpChunkError,
            >(UdpChunkError::MetadataMismatch),
            belongs(old(self)@, header) ==> {
                let next = with_chunk(old(self)@, header, payload@);
                &&& final(self)@ == next
                &&& match r {
                    Ok(None) => !all_there(next.slots),
                    Ok(Some(frame)) => all_there(next.slots) && assembled(next, header.request_id)
                        == Ok::<Seq<u8>, UdpChunkError>(frame@),
                    Err(e) => all_there(next.slots) && assembled(next, header.request_id) == Err::<
                        Seq<u8>,
                        UdpChunkError,
                    >(e),
                }
            },
    {
        if header.frame_type != self.frame_type || header.request_id != self.request_id
            || header.frame_len != self.frame_len || header.total_chunks != self.total_chunks {
            return Err(UdpChunkError::MetadataMismatch);
        }
        let i: usize = header.chunk_id as usize;
        let slot = ChunkSlot {
            payload,
            prev_checksum: header.prev_checksum,
            next_checksum: header.next_checksum,
        };
        let ghost before = *self;
        self.chunks[i] = Some(slot);
        assert(self@.slots =~= with_chunk(before@, header, payload@).slots);
        if !self.is_complete() {
            return Ok(None);
        }
        match self.assemble() {
            Ok(frame) => Ok(Some(frame)),
            Err(e) => Err(e),
        }
    }
}

// ---------------------------------------------------------------------------
// The reassembler

impl UdpFrameReassembler {
    /// Each group is filed under its request id and has at least one place.
    pub closed spec fn wf(&self) -> bool {
        forall|id: u64| #[trigger]
            self.groups@.contains_key(id) ==> self.groups@[id].wf() && self.groups@[id].request_id
                == id
    }

    /// The time from which on the reassembler counts as expired.
    pub closed spec fn deadline(&self) -> u64 {
        self.deadline_ms
    }

    /// A reassembler without chunks that expires when the timeout is over.
    pub fn new(now_ms: u64, timeout_ms: u64) -> (r: UdpFrameReassembler)
        ensures
            r.wf(),
            r@ == Map::<u64, GroupView>::empty(),
            r.deadline() == (if now_ms + timeout_ms > u64::MAX {
                u64::MAX as int
            } else {
                now_ms + timeout_ms
            }),
    {
        let r = UdpFrameReassembler {
            deadline_ms: now_ms.saturating_add(timeout_ms),
            groups: HashMap::new(),
        };
        assert(r@ =~= Map::<u64, GroupView>::empty());
        r
    }

    /// Whether the timeout is over.
    pub fn is_expired(&self, now_ms: u64) -> (r: bool)
        ensures
            r == (now_ms >= self.deadline()),
    {
        now_ms >= self.deadline_ms
    }

    /// Takes in a datagram. The frame comes out with the chunk that completes
    /// it.
    pub fn insert(&mut self, datagram: &[u8]) -> (r: Result<Option<Vec<u8>>, UdpChunkError>)
        requires
            old(self).wf(),
        ensures
            final(self).wf(),
            final(self).deadline() == old(self).deadline(),
            final(self)@ == groups_after(old(self)@, datagram@),
            match r {
                Ok(None) => outcome(old(self)@, datagram@) == Ok::<Option<Seq<u8>>, UdpChunkError>(
                    None,
                ),
                Ok(Some(frame)) => outcome(old(self)@, datagram@) == Ok::<
                    Option<Seq<u8>>,
                    UdpChunkError,
                >(Some(frame@)),
                Err(e) => outcome(old(self)@, datagram@) == Err::<Option<Seq<u8>>, UdpChunkError>(
                    e,
                ),
            },
    {
        let header = match UdpChunkHeader::decode(datagram) {
            Ok(h) => h,
            Err(e) => {
                return Err(e);
            },
        };
        let ghost before = *self;
        let payload = copy_bytes(&datagram[UDP_CHUNK_HEADER_LEN..datagram.len()]);
        assert(payload@ =~= datagram@.skip(UDP_CHUNK_HEADER_LEN as int));
        let mut group = match self.groups.remove(&header.request_id) {
            Some(g) => g,
            None => ChunkGroup::new(
                header.frame_type,
                header.request_id,
                header.frame_len,
                header.total_chunks,
            ),
        };
        assert(group@ == group_for(before@, header));
        let r = group.insert(header, payload);
        self.groups.insert(header.request_id, group);
        proof {
            if belongs(group_for(before@, header), header) {
                assert(self@ =~= groups_after(before@, datagram@));
            } else {
                assert(before@.contains_key(header.request_id));
                assert(self@ =~= before@);
            }
        }
        r
    }
}

// ---------------------------------------------------------------------------
// Laws

/// The groups after several datagrams.
pub open spec fn groups_after_all(groups: Map<u64, GroupView>, datagrams: Seq<Seq<u8>>) -> Map<
    u64,
    GroupView,
>
    decreases datagrams.len(),
{
    if datagrams.len() == 0 {
        groups
    } else {
        groups_after(groups_after_all(groups, datagrams.drop_last()), datagrams.last())
    }
}

/// A datagram that arrives while a frame is put together.
pub enum Arrival {
    /// The chunk of that number.
    Chunk(int),
    /// The chunk of that number with other bytes behind its header.
    Corrupt(int, Seq<u8>),
    /// A datagram that has nothing to do with the frame.
    Other(Seq<u8>),
}

/// The datagram that arrives.
pub open spec fn arrival_bytes(
    frame: Seq<u8>,
    header: FrameHeader,
    max_payload: nat,
    arrival: Arrival,
) -> Seq<u8> {
    match arrival {
        Arrival::Chunk(i) => chunk_datagram(frame, header, max_payload, i),
        Arrival::Corrupt(i, payload) => chunk_header(frame, header, max_payload, i).spec_bytes()
            + payload,
        Arrival::Other(datagram) => datagram,
    }
}

/// The datagrams that arrive.
pub open spec fn all_arrivals(
    frame: Seq<u8>,
    header: FrameHeader,
    max_payload: nat,
    arrivals: Seq<Arrival>,
) -> Seq<Seq<u8>> {
    arrivals.map_values(|x: Arrival| arrival_bytes(frame, header, max_payload, x))
}

/// Whether an arrival is what it is said to be: a chunk that the frame has,
/// changed only behind its header, or a datagram that is no chunk at all or one
/// of another request id.
pub open spec fn can_arrive(
    frame: Seq<u8>,
    header: FrameHeader,
    max_payload: nat,
    arrival: Arrival,
) -> bool {
    match arrival {
        Arrival::Chunk(i) => 0 <= i < chunk_count(frame.len(), max_payload),
        Arrival::Corrupt(i, payload) => 0 <= i < chunk_count(frame.len(), max_payload)
            && payload.len() == chunk(frame, max_payload, i).len(),
        Arrival::Other(datagram) => UdpChunkHeader::spec_decode(datagram) matches Ok(h)
            ==> h.request_id != header.request_id,
    }
}

pub open spec fn all_can_arrive(
    frame: Seq<u8>,
    header: FrameHeader,
    max_payload: nat,
    arrivals: Seq<Arrival>,
) -> bool {
    forall|k: int|
        0 <= k < arrivals.len() ==> can_arrive(frame, header, max_payload, #[trigger] arrivals[k])
}

/// The payload with which chunk `i` arrived last, if it did.
pub open spec fn arrived(
    frame: Seq<u8>,
    max_payload: nat,
    arrivals: Seq<Arrival>,
    i: int,
) -> Option<Seq<u8>>
    decreases arrivals.len(),
{
    if arrivals.len() == 0 {
        None
    } else {
        let earlier = arrived(frame, max_payload, arrivals.drop_last(), i);
        match arrivals.last() {
            Arrival::Chunk(j) => if i == j {
                Some(chunk(frame, max_payload, i))
            } else {
                earlier
            },
            Arrival::Corrupt(j, payload) => if i == j {
                Some(payload)
            } else {
                earlier
            },
            Arrival::Other(_) => earlier,
        }
    }
}

/// Whether every chunk of a frame has arrived.
pub open spec fn all_arrived(frame: Seq<u8>, max_payload: nat, arrivals: Seq<Arrival>) -> bool {
    forall|i: int|
        0 <= i < chunk_count(frame.len(), max_payload) ==> (#[trigger] arrived(
            frame,
            max_payload,
            arrivals,
            i,
        )) is Some
}

/// Whether every chunk of a frame has arrived, and last as it was cut.
pub open spec fn all_intact(frame: Seq<u8>, max_payload: nat, arrivals: Seq<Arrival>) -> bool {
    forall|i: int|
        0 <= i < chunk_count(frame.len(), max_payload) ==> (#[trigger] arrived(
            frame,
            max_payload,
            arrivals,
            i,
        )) == Some(chunk(frame, max_payload, i))
}

/// Whether no chunk arrived with other bytes.
pub open spec fn none_changed(arrivals: Seq<Arrival>) -> bool {
    forall|k: int| 0 <= k < arrivals.len() ==> !((#[trigger] arrivals[k]) is Corrupt)
}

/// Whether some chunk arrived last with a payload of another checksum than the
/// one that was cut.
pub open spec fn some_corrupt(frame: Seq<u8>, max_payload: nat, arrivals: Seq<Arrival>) -> bool {
    exists|i: int|
        0 <= i < chunk_count(frame.len(), max_payload) && (#[trigger] arrived(
            frame,
            max_payload,
            arrivals,
            i,
        ) matches Some(p) && crc32(p) != crc32(chunk(frame, max_payload, i)))
}

/// The place of chunk `i` of a frame once it has arrived with a payload.
pub open spec fn slot_of(
    frame: Seq<u8>,
    header: FrameHeader,
    max_payload: nat,
    i: int,
    payload: Seq<u8>,
) -> SlotView {
    let h = chunk_header(frame, header, max_payload, i);
    SlotView { payload, prev_checksum: h.prev_checksum, next_checksum: h.next_checksum }
}

/// The group of a frame after the arrivals.
pub open spec fn group_of(
    frame: Seq<u8>,
    header: FrameHeader,
    max_payload: nat,
    arrivals: Seq<Arrival>,
) -> GroupView {
    GroupView {
        frame_type: header.frame_type,
        frame_len: frame.len() as u32,
        slots: Seq::new(
            chunk_count(frame.len(), max_payload),
            |i: int|
                match arrived(frame, max_payload, arrivals, i) {
                    Some(payload) => Some(slot_of(frame, header, max_payload, i, payload)),
                    None => None,
                },
        ),
    }
}

/// Whether the groups are those of the arrivals as far as the frame goes: it has
/// a group from its first chunk on.
spec fn groups_hold(
    groups: Map<u64, GroupView>,
    frame: Seq<u8>,
    header: FrameHeader,
    max_payload: nat,
    arrivals: Seq<Arrival>,
) -> bool {
    let group = group_of(frame, header, max_payload, arrivals);
    if groups.contains_key(header.request_id) {
        groups[header.request_id] == group
    } else {
        forall|i: int| (#[trigger] arrived(frame, max_payload, arrivals, i)) is None
    }
}

pub proof fn lemma_arrival_reads_back(
    frame: Seq<u8>,
    header: FrameHeader,
    max_payload: nat,
    i: int,
    payload: Seq<u8>,
)
    requires
        cutting_fault(frame, max_payload) is None,
        max_payload <= u16::MAX,
        header == spec_decode_frame(frame)->Ok_0.0,
        0 <= i < chunk_count(frame.len(), max_payload),
        payload.len() == chunk(frame, max_payload, i).len(),
    ensures
        ({
            let h = chunk_header(frame, header, max_payload, i);
            let d = h.spec_bytes() + payload;
            &&& UdpChunkHeader::spec_decode(d) == Ok::<UdpChunkHeader, UdpChunkError>(h)
            &&& h.chunk_id == i
            &&& h.total_chunks == chunk_count(frame.len(), max_payload)
            &&& d.skip(UDP_CHUNK_HEADER_LEN as int) == payload
        }),
{
    let h = chunk_header(frame, header, max_payload, i);
    lemma_chunk_bounds(frame.len(), max_payload, i);
    law_chunk_header_reads_back(h, payload);
    lemma_chunk_header_bytes(h);
    assert((h.spec_bytes() + payload).skip(UDP_CHUNK_HEADER_LEN as int) =~= payload);
}

proof fn lemma_own_arrival(
    groups: Map<u64, GroupView>,
    frame: Seq<u8>,
    header: FrameHeader,
    max_payload: nat,
    arrivals: Seq<Arrival>,
    last: Arrival,
)
    requires
        cutting_fault(frame, max_payload) is None,
        max_payload <= u16::MAX,
        header == spec_decode_frame(frame)->Ok_0.0,
        can_arrive(frame, header, max_payload, last),
        !(last is Other),
        groups_hold(groups, frame, header, max_payload, arrivals),
    ensures
        ({
            let d = arrival_bytes(frame, header, max_payload, last);
            let next = group_of(frame, header, max_payload, arrivals.push(last));
            &&& groups_after(groups, d) == groups.insert(header.request_id, next)
            &&& groups_hold(groups_after(groups, d), frame, header, max_payload, arrivals.push(last))
            &&& outcome(groups, d) == (if !all_there(next.slots) {
                Ok::<Option<Seq<u8>>, UdpChunkError>(None)
            } else {
                match assembled(next, header.request_id) {
                    Ok(f) => Ok(Some(f)),
                    Err(e) => Err(e),
                }
            })
        }),
{
    let (i, payload) = match last {
        Arrival::Chunk(i) => (i, chunk(frame, max_payload, i)),
        Arrival::Corrupt(i, payload) => (i, payload),
        Arrival::Other(_) => (0int, Seq::empty()),
    };
    lemma_arrival_reads_back(frame, header, max_payload, i, payload);
    let h = chunk_header(frame, header, max_payload, i);
    let group = group_for(groups, h);
    let all = arrivals.push(last);
    let next = group_of(frame, header, max_payload, all);
    assert(all.drop_last() =~= arrivals);
    assert(group.slots =~= group_of(frame, header, max_payload, arrivals).slots) by {
        if !groups.contains_key(header.request_id) {
            assert forall|j: int| 0 <= j < group.slots.len() implies group.slots[j] == group_of(
                frame,
                header,
                max_payload,
                arrivals,
            ).slots[j] by {
                assert(arrived(frame, max_payload, arrivals, j) is None);
            }
        }
    }
    assert forall|j: int| 0 <= j < next.slots.len() implies with_chunk(
        group,
        h,
        payload,
    ).slots[j] == next.slots[j] by {
        assert(arrived(frame, max_payload, all, j) == (if j == i {
            Some(payload)
        } else {
            arrived(frame, max_payload, arrivals, j)
        }));
    }
    assert(with_chunk(group, h, payload).slots =~= next.slots);
}

proof fn lemma_arrivals(
    groups: Map<u64, GroupView>,
    frame: Seq<u8>,
    header: FrameHeader,
    max_payload: nat,
    arrivals: Seq<Arrival>,
)
    requires
        cutting_fault(frame, max_payload) is None,
        max_payload <= u16::MAX,
        header == spec_decode_frame(frame)->Ok_0.0,
        !groups.contains_key(header.request_id),
        all_can_arrive(frame, header, max_payload, arrivals),
    ensures
        groups_hold(
            groups_after_all(groups, all_arrivals(frame, header, max_payload, arrivals)),
            frame,
            header,
            max_payload,
            arrivals,
        ),
    decreases arrivals.len(),
{
    let datagrams = all_arrivals(frame, header, max_payload, arrivals);
    if arrivals.len() > 0 {
        let rest = arrivals.drop_last();
        let last = arrivals.last();
        assert(rest.push(last) =~= arrivals);
        assert forall|k: int| 0 <= k < rest.len() implies can_arrive(
            frame,
            header,
            max_payload,
            #[trigger] rest[k],
        ) by {
            assert(rest[k] == arrivals[k]);
        }
        assert(can_arrive(frame, header, max_payload, arrivals[arrivals.len() - 1]));
        lemma_arrivals(groups, frame, header, max_payload, rest);
        assert(datagrams.drop_last() =~= all_arrivals(frame, header, max_payload, rest));
        assert(datagrams.last() == arrival_bytes(frame, header, max_payload, last));
        let before = groups_after_all(groups, datagrams.drop_last());
        if last is Other {
            assert forall|i: int| #[trigger]
                arrived(frame, max_payload, arrivals, i) == arrived(frame, max_payload, rest, i) by {}
            assert(group_of(frame, header, max_payload, arrivals).slots =~= group_of(
                frame,
                header,
                max_payload,
                rest,
            ).slots);
        } else {
            lemma_own_arrival(before, frame, header, max_payload, rest, last);
        }
    }
}

proof fn lemma_joined(
    frame: Seq<u8>,
    header: FrameHeader,
    max_payload: nat,
    arrivals: Seq<Arrival>,
    n: int,
)
    requires
        cutting_fault(frame, max_payload) is None,
        0 <= n <= chunk_count(frame.len(), max_payload),
        all_intact(frame, max_payload, arrivals),
    ensures
        joined(group_of(frame, header, max_payload, arrivals).slots.take(n)) == (if n == 0 {
            Seq::empty()
        } else {
            frame.take(chunk_end(frame.len(), max_payload, n - 1))
        }),
    decreases n,
{
    let slots = group_of(frame, header, max_payload, arrivals).slots;
    if n > 0 {
        lemma_joined(frame, header, max_payload, arrivals, n - 1);
        lemma_chunk_bounds(frame.len(), max_payload, n - 1);
        assert(slots.take(n).drop_last() =~= slots.take(n - 1));
        assert(arrived(frame, max_payload, arrivals, n - 1) is Some);
        assert(slots.take(n).last()->0.payload == chunk(frame, max_payload, n - 1));
        if n > 1 {
            lemma_chunk_bounds(frame.len(), max_payload, n - 2);
        } else {
            assert((n - 1) * max_payload == 0) by (nonlinear_arith)
                requires
                    n == 1,
            ;
        }
        assert(joined(slots.take(n)) =~= frame.take(chunk_end(frame.len(), max_payload, n - 1)));
    }
}

proof fn lemma_complete(
    frame: Seq<u8>,
    header: FrameHeader,
    max_payload: nat,
    arrivals: Seq<Arrival>,
)
    requires
        cutting_fault(frame, max_payload) is None,
        header == spec_decode_frame(frame)->Ok_0.0,
        all_intact(frame, max_payload, arrivals),
    ensures
        all_there(group_of(frame, header, max_payload, arrivals).slots),
        assembled(group_of(frame, header, max_payload, arrivals), header.request_id) == Ok::<
            Seq<u8>,
            UdpChunkError,
        >(frame),
{
    let group = group_of(frame, header, max_payload, arrivals);
    let total = chunk_count(frame.len(), max_payload) as int;
    lemma_chunk_bounds(frame.len(), max_payload, 0);
    lemma_chunk_bounds(frame.len(), max_payload, total - 1);
    lemma_joined(frame, header, max_payload, arrivals, total);
    assert(group.slots.take(total) =~= group.slots);
    assert(joined(group.slots) =~= frame);
    assert forall|i: int| 0 <= i < total implies #[trigger] neighbours_match(group.slots, i) by {
        assert(arrived(frame, max_payload, arrivals, i) is Some);
        assert(arrived(frame, max_payload, arrivals, prev_index(i, total)) is Some);
        assert(arrived(frame, max_payload, arrivals, next_index(i, total)) is Some);
    }
    assert forall|i: int| 0 <= i < total implies (#[trigger] group.slots[i]) is Some by {
        assert(arrived(frame, max_payload, arrivals, i) is Some);
    }
    assert(frame.take(frame.len() as int) =~= frame);
}

proof fn lemma_unchanged(frame: Seq<u8>, max_payload: nat, arrivals: Seq<Arrival>, i: int)
    requires
        none_changed(arrivals),
    ensures
        arrived(frame, max_payload, arrivals, i) matches Some(p) ==> p == chunk(
            frame,
            max_payload,
            i,
        ),
    decreases arrivals.len(),
{
    if arrivals.len() > 0 {
        let rest = arrivals.drop_last();
        assert forall|k: int| 0 <= k < rest.len() implies !((#[trigger] rest[k]) is Corrupt) by {
            assert(rest[k] == arrivals[k]);
        }
        assert(!(arrivals[arrivals.len() - 1] is Corrupt));
        lemma_unchanged(frame, max_payload, rest, i);
    }
}

/// What the chunks of a frame complete, in any order, with any repetitions and
/// with datagrams of other request ids, or that are no chunks, among them:
/// nothing while one is missing; the frame that was cut, once all are there, if
/// each arrived, at least last, as it was cut; and a checksum fault instead while one of
/// them has a payload of another checksum, until that chunk arrives intact.
pub proof fn law_chunks_in_any_order(
    groups: Map<u64, GroupView>,
    frame: Seq<u8>,
    max_payload: nat,
    arrivals: Seq<Arrival>,
    last: Arrival,
)
    requires
        cutting_fault(frame, max_payload) is None,
        max_payload <= u16::MAX,
        !groups.contains_key(spec_decode_frame(frame)->Ok_0.0.request_id),
        all_can_arrive(frame, spec_decode_frame(frame)->Ok_0.0, max_payload, arrivals),
        can_arrive(frame, spec_decode_frame(frame)->Ok_0.0, max_payload, last),
        !(last is Other),
    ensures
        ({
            let header = spec_decode_frame(frame)->Ok_0.0;
            let before = groups_after_all(
                groups,
                all_arrivals(frame, header, max_payload, arrivals),
            );
            let got = outcome(before, arrival_bytes(frame, header, max_payload, last));
            let all = arrivals.push(last);
            &&& !all_arrived(frame, max_payload, all) ==> got == Ok::<
                Option<Seq<u8>>,
                UdpChunkError,
            >(None)
            &&& all_intact(frame, max_payload, all) ==> got == Ok::<
                Option<Seq<u8>>,
                UdpChunkError,
            >(Some(frame))
            &&& none_changed(all) ==> all_intact(frame, max_payload, all) == all_arrived(
                frame,
                max_payload,
                all,
            )
            &&& all_arrived(frame, max_payload, all) && some_corrupt(frame, max_payload, all)
                ==> got == Err::<Option<Seq<u8>>, UdpChunkError>(UdpChunkError::ChecksumMismatch)
        }),
{
    let header = spec_decode_frame(frame)->Ok_0.0;
    let before = groups_after_all(groups, all_arrivals(frame, header, max_payload, arrivals));
    lemma_arrivals(groups, frame, header, max_payload, arrivals);
    lemma_own_arrival(before, frame, header, max_payload, arrivals, last);
    let all = arrivals.push(last);
    let next = group_of(frame, header, max_payload, all);
    let total = chunk_count(frame.len(), max_payload) as int;
    if none_changed(all) && all_arrived(frame, max_payload, all) {
        assert forall|i: int| 0 <= i < total implies (#[trigger] arrived(
            frame,
            max_payload,
            all,
            i,
        )) == Some(chunk(frame, max_payload, i)) by {
            lemma_unchanged(frame, max_payload, all, i);
        }
    }
    if all_intact(frame, max_payload, all) {
        assert forall|i: int| 0 <= i < total implies (#[trigger] arrived(
            frame,
            max_payload,
            all,
            i,
        )) is Some by {}
        lemma_complete(frame, header, max_payload, all);
    }
    if all_arrived(frame, max_payload, all) {
        assert forall|i: int| 0 <= i < total implies (#[trigger] next.slots[i]) is Some by {
            assert(arrived(frame, max_payload, all, i) is Some);
        }
        if some_corrupt(frame, max_payload, all) {
            let bad = choose|i: int|
                0 <= i < total && (#[trigger] arrived(frame, max_payload, all, i) matches Some(p)
                    && crc32(p) != crc32(chunk(frame, max_payload, i)));
            let after = next_index(bad, total);
            assert(prev_index(after, total) == bad);
            assert(arrived(frame, max_payload, all, after) is Some);
            assert(!neighbours_match(next.slots, after));
        }
    } else {
        let i = choose|i: int|
            0 <= i < total && (#[trigger] arrived(frame, max_payload, all, i)) is None;
        assert(next.slots[i] is None);
    }
}

/// Where one chunk of a frame arrived with a payload of another checksum and
/// every other as it was cut, the datagram that completes the set is refused,
/// and the intact chunk, behind it, brings the frame.
pub proof fn law_corrupt_chunk_is_refused(
    groups: Map<u64, GroupView>,
    frame: Seq<u8>,
    max_payload: nat,
    arrivals: Seq<Arrival>,
    last: Arrival,
    bad: int,
)
    requires
        cutting_fault(frame, max_payload) is None,
        max_payload <= u16::MAX,
        !groups.contains_key(spec_decode_frame(frame)->Ok_0.0.request_id),
        all_can_arrive(frame, spec_decode_frame(frame)->Ok_0.0, max_payload, arrivals),
        can_arrive(frame, spec_decode_frame(frame)->Ok_0.0, max_payload, last),
        !(last is Other),
        0 <= bad < chunk_count(frame.len(), max_payload),
        forall|i: int|
            0 <= i < chunk_count(frame.len(), max_payload) && i != bad ==> (#[trigger] arrived(
                frame,
                max_payload,
                arrivals.push(last),
                i,
            )) == Some(chunk(frame, max_payload, i)),
        arrived(frame, max_payload, arrivals.push(last), bad) matches Some(p) && crc32(p) != crc32(
            chunk(frame, max_payload, bad),
        ),
    ensures
        ({
            let header = spec_decode_frame(frame)->Ok_0.0;
            let before = groups_after_all(
                groups,
                all_arrivals(frame, header, max_payload, arrivals),
            );
            let completing = arrival_bytes(frame, header, max_payload, last);
            let after = groups_after(before, completing);
            &&& outcome(before, completing) == Err::<Option<Seq<u8>>, UdpChunkError>(
                UdpChunkError::ChecksumMismatch,
            )
            &&& outcome(after, chunk_datagram(frame, header, max_payload, bad)) == Ok::<
                Option<Seq<u8>>,
                UdpChunkError,
            >(Some(frame))
        }),
{
    let header = spec_decode_frame(frame)->Ok_0.0;
    let all = arrivals.push(last);
    law_chunks_in_any_order(groups, frame, max_payload, arrivals, last);
    assert(arrived(frame, max_payload, all, bad) is Some);
    assert(some_corrupt(frame, max_payload, all));
    let mended = all.push(Arrival::Chunk(bad));
    assert(mended.drop_last() =~= all);
    assert forall|i: int| 0 <= i < chunk_count(frame.len(), max_payload) implies (
    #[trigger] arrived(frame, max_payload, mended, i)) == Some(chunk(frame, max_payload, i)) by {
        if i != bad {
            assert(arrived(frame, max_payload, all, i) == Some(chunk(frame, max_payload, i)));
        }
    }
    law_chunks_in_any_order(groups, frame, max_payload, all, Arrival::Chunk(bad));
    let datagrams = all_arrivals(frame, header, max_payload, all);
    assert(datagrams.drop_last() =~= all_arrivals(frame, header, max_payload, arrivals));
}

/// Where the chunks of a frame arrive in any order, each once, one of them with
/// one byte behind its header changed and datagrams of other frames among them,
/// every datagram but the last of its own brings nothing, that one is refused
/// for its checksum, and the intact chunk, behind it, brings the frame.
pub proof fn law_changed_byte_is_found(
    groups: Map<u64, GroupView>,
    frame: Seq<u8>,
    max_payload: nat,
    arrivals: Seq<Arrival>,
    bad: int,
    payload: Seq<u8>,
    k: int,
)
    requires
        cutting_fault(frame, max_payload) is None,
        max_payload <= u16::MAX,
        !groups.contains_key(spec_decode_frame(frame)->Ok_0.0.request_id),
        all_can_arrive(frame, spec_decode_frame(frame)->Ok_0.0, max_payload, arrivals),
        arrivals.len() > 0,
        !(arrivals.last() is Other),
        0 <= bad < chunk_count(frame.len(), max_payload),
        differ_at(chunk(frame, max_payload, bad), payload, k),
        arrivals.contains(Arrival::Corrupt(bad, payload)),
        forall|i: int|
            0 <= i < chunk_count(frame.len(), max_payload) && i != bad
                ==> #[trigger] arrivals.contains(Arrival::Chunk(i)),
        arrive_once(arrivals),
    ensures
        ({
            let header = spec_decode_frame(frame)->Ok_0.0;
            let datagrams = all_arrivals(frame, header, max_payload, arrivals);
            let before = groups_after_all(groups, datagrams.drop_last());
            let after = groups_after_all(groups, datagrams);
            &&& outcome(before, datagrams.last()) == Err::<Option<Seq<u8>>, UdpChunkError>(
                UdpChunkError::ChecksumMismatch,
            )
            &&& forall|n: int|
                0 <= n < arrivals.len() - 1 && !(#[trigger] arrivals[n] is Other) ==> outcome(
                    groups_after_all(groups, datagrams.take(n)),
                    datagrams[n],
                ) == Ok::<Option<Seq<u8>>, UdpChunkError>(None)
            &&& outcome(after, chunk_datagram(frame, header, max_payload, bad)) == Ok::<
                Option<Seq<u8>>,
                UdpChunkError,
            >(Some(frame))
        }),
{
    let header = spec_decode_frame(frame)->Ok_0.0;
    let datagrams = all_arrivals(frame, header, max_payload, arrivals);
    let rest = arrivals.drop_last();
    let last = arrivals.last();
    assert(rest.push(last) =~= arrivals);
    law_changed_byte_changes_the_checksum(chunk(frame, max_payload, bad), payload, k);
    assert forall|i: int| 0 <= i < chunk_count(frame.len(), max_payload) implies (
    #[trigger] arrived(frame, max_payload, arrivals, i)) == Some(
        if i == bad {
            payload
        } else {
            chunk(frame, max_payload, i)
        },
    ) by {
        let x = if i == bad {
            Arrival::Corrupt(bad, payload)
        } else {
            Arrival::Chunk(i)
        };
        assert(arrivals.contains(x));
        let at = arrivals.index_of(x);
        lemma_arrived_at(frame, max_payload, arrivals, i, at);
    }
    assert forall|j: int| 0 <= j < rest.len() implies can_arrive(
        frame,
        header,
        max_payload,
        #[trigger] rest[j],
    ) by {
        assert(rest[j] == arrivals[j]);
    }
    assert(can_arrive(frame, header, max_payload, arrivals[arrivals.len() - 1]));
    assert(datagrams.drop_last() =~= all_arrivals(frame, header, max_payload, rest));
    law_corrupt_chunk_is_refused(groups, frame, max_payload, rest, last, bad);
    assert forall|n: int|
        0 <= n < arrivals.len() - 1 && !(#[trigger] arrivals[n] is Other) implies outcome(
        groups_after_all(groups, datagrams.take(n)),
        datagrams[n],
    ) == Ok::<Option<Seq<u8>>, UdpChunkError>(None) by {
        let early = arrivals.take(n);
        assert forall|j: int| 0 <= j < early.len() implies can_arrive(
            frame,
            header,
            max_payload,
            #[trigger] early[j],
        ) by {
            assert(early[j] == arrivals[j]);
        }
        assert(can_arrive(frame, header, max_payload, arrivals[n]));
        assert(datagrams.take(n) =~= all_arrivals(frame, header, max_payload, early));
        law_chunks_in_any_order(groups, frame, max_payload, early, arrivals[n]);
        let missing = chunk_number(last);
        assert(early.push(arrivals[n]) =~= arrivals.take(n + 1));
        assert forall|j: int| 0 <= j < n + 1 implies chunk_number(
            #[trigger] arrivals.take(n + 1)[j],
        ) != missing by {
            assert(arrivals.take(n + 1)[j] == arrivals[j]);
            assert(arrivals[arrivals.len() - 1] == last);
        }
        lemma_not_arrived(frame, max_payload, arrivals.take(n + 1), missing->0);
    }
}

/// The number of the chunk that arrives, if one does.
pub open spec fn chunk_number(arrival: Arrival) -> Option<int> {
    match arrival {
        Arrival::Chunk(i) => Some(i),
        Arrival::Corrupt(i, _) => Some(i),
        Arrival::Other(_) => None,
    }
}

/// Whether no chunk arrives twice.
pub open spec fn arrive_once(arrivals: Seq<Arrival>) -> bool {
    forall|i: int, j: int|
        #![trigger arrivals[i], arrivals[j]]
        0 <= i < j < arrivals.len() && chunk_number(arrivals[i]) is Some ==> chunk_number(
            arrivals[i],
        ) != chunk_number(arrivals[j])
}

proof fn lemma_not_arrived(frame: Seq<u8>, max_payload: nat, arrivals: Seq<Arrival>, i: int)
    requires
        forall|j: int|
            0 <= j < arrivals.len() ==> chunk_number(#[trigger] arrivals[j]) != Some(i),
    ensures
        arrived(frame, max_payload, arrivals, i) is None,
    decreases arrivals.len(),
{
    if arrivals.len() > 0 {
        let rest = arrivals.drop_last();
        assert forall|j: int| 0 <= j < rest.len() implies chunk_number(#[trigger] rest[j]) != Some(
            i,
        ) by {
            assert(rest[j] == arrivals[j]);
        }
        assert(chunk_number(arrivals[arrivals.len() - 1]) != Some(i));
        lemma_not_arrived(frame, max_payload, rest, i);
    }
}

proof fn lemma_arrived_at(
    frame: Seq<u8>,
    max_payload: nat,
    arrivals: Seq<Arrival>,
    i: int,
    at: int,
)
    requires
        0 <= at < arrivals.len(),
        chunk_number(arrivals[at]) == Some(i),
        arrive_once(arrivals),
    ensures
        arrived(frame, max_payload, arrivals, i) == (match arrivals[at] {
            Arrival::Corrupt(_, payload) => Some(payload),
            _ => Some(chunk(frame, max_payload, i)),
        }),
    decreases arrivals.len(),
{
    let n = arrivals.len() - 1;
    if at < n {
        let rest = arrivals.drop_last();
        assert(chunk_number(arrivals[at]) != chunk_number(arrivals[n]));
        assert(arrive_once(rest)) by {
            assert forall|p: int, q: int|
                #![trigger rest[p], rest[q]]
                0 <= p < q < rest.len() && chunk_number(rest[p]) is Some implies chunk_number(
                rest[p],
            ) != chunk_number(rest[q]) by {
                assert(rest[p] == arrivals[p] && rest[q] == arrivals[q]);
            }
        }
        assert(rest[at] == arrivals[at]);
        lemma_arrived_at(frame, max_payload, rest, i, at);
    }
}

} // verus!
