//! Laws of the server over UDP and of putting frames together.

use vstd::prelude::*;
use crate::common::crc::crc32;
use crate::common::error::ErrorCode;
use crate::common::frame::{frame_bytes, law_frame_reads_back, spec_decode_frame, FrameType};
use crate::common::net::{addr_key, AddrView};
use crate::common::reassembly::{
    all_match, all_there, assembled, belongs, group_for, groups_after, joined, outcome, with_chunk,
    GroupView,
};
use crate::common::udp::{chunk_count, spec_decode_single, UdpChunkError, UdpChunkHeader};
use crate::laws::wire::{
    chunks_joined, law_chunks_make_up_the_frame, law_frame_layout, law_single_datagram,
};
use crate::server::cache::EntryView;
use crate::server::transport::{header_for, reply, Request, TransportError};
use crate::server::udp_transport::{
    after_datagram, after_entry, after_frame, after_mtu, after_request, chunks_of, datagrams_for,
    room_for, JobView, PeerChunks, PhaseView, ServerView, StepView,
};
use crate::text::{text_in, trimmed};

verus! {

// ---------------------------------------------------------------------------
// Putting frames together

/// The group of a chunk: that of its request or, for the first one, as many empty places
/// as it announces.
pub proof fn law_group_of_a_chunk(groups: Map<u64, GroupView>, h: UdpChunkHeader, i: int)
    ensures
        groups.contains_key(h.request_id) ==> group_for(groups, h) == groups[h.request_id],
        !groups.contains_key(h.request_id) ==> {
            let g = group_for(groups, h);
            &&& g.frame_type == h.frame_type && g.frame_len == h.frame_len && g.slots.len()
                == h.total_chunks
            &&& 0 <= i < h.total_chunks ==> g.slots[i] is None
            &&& belongs(g, h)
        },
        belongs(group_for(groups, h), h) <==> h.frame_type == group_for(groups, h).frame_type
            && h.frame_len == group_for(groups, h).frame_len && h.total_chunks == group_for(
            groups,
            h,
        ).slots.len(),
{
}

/// A chunk is put in its place, with the checksums that it carries; the other places stay.
pub proof fn law_chunk_is_put_in_its_place(
    g: GroupView,
    h: UdpChunkHeader,
    payload: Seq<u8>,
    i: int,
)
    requires
        h.chunk_id < g.slots.len(),
        0 <= i < g.slots.len(),
    ensures
        ({
            let n = with_chunk(g, h, payload);
            &&& n.frame_type == g.frame_type && n.frame_len == g.frame_len && n.slots.len()
                == g.slots.len()
            &&& i == h.chunk_id ==> (n.slots[i] matches Some(s) && s.payload == payload
                && s.prev_checksum == h.prev_checksum && s.next_checksum == h.next_checksum)
            &&& i != h.chunk_id ==> n.slots[i] == g.slots[i]
        }),
{
}

/// A datagram is refused if it is no chunk, or not one of its group, and changes nothing;
/// otherwise it is put in its group, and no other group changes. While chunks are missing
/// nothing comes of it.
pub proof fn law_datagram_and_groups(groups: Map<u64, GroupView>, datagram: Seq<u8>, other: u64)
    ensures
        UdpChunkHeader::spec_decode(datagram) matches Err(e) ==> outcome(groups, datagram)
            == Err::<Option<Seq<u8>>, _>(e) && groups_after(groups, datagram) == groups,
        UdpChunkHeader::spec_decode(datagram) matches Ok(h) ==> {
            let g = group_for(groups, h);
            let n = with_chunk(g, h, datagram.skip(32));
            &&& !belongs(g, h) ==> outcome(groups, datagram) == Err::<Option<Seq<u8>>, _>(
                UdpChunkError::MetadataMismatch,
            ) && groups_after(groups, datagram) == groups
            &&& belongs(g, h) ==> {
                let after = groups_after(groups, datagram);
                &&& after.contains_key(h.request_id) && after[h.request_id] == n
                &&& other != h.request_id ==> (after.contains_key(other) <==> groups.contains_key(
                    other,
                ))
                &&& other != h.request_id && groups.contains_key(other) ==> after[other]
                    == groups[other]
                &&& !all_there(n.slots) ==> outcome(groups, datagram) == Ok::<
                    Option<Seq<u8>>,
                    UdpChunkError,
                >(None)
                &&& all_there(n.slots) ==> (match assembled(n, h.request_id) {
                    Ok(frame) => outcome(groups, datagram) == Ok::<
                        Option<Seq<u8>>,
                        UdpChunkError,
                    >(Some(frame)),
                    Err(e) => outcome(groups, datagram) == Err::<Option<Seq<u8>>, UdpChunkError>(e),
                })
            }
        },
{
}

/// A frame comes out of a group only if every chunk has the checksum that both of its
/// neighbours carry, the last and the first being neighbours, and its header says what the
/// chunks say.
pub proof fn law_assembled_frame(g: GroupView, id: u64, i: int)
    requires
        all_there(g.slots),
        0 <= i < g.slots.len(),
    ensures
        assembled(g, id) matches Ok(frame) ==> {
            let n = g.slots.len() as int;
            let behind = if i == n - 1 {
                0
            } else {
                i + 1
            };
            &&& crc32(g.slots[behind]->0.payload) == g.slots[i]->0.next_checksum
            &&& crc32(g.slots[i]->0.payload) == g.slots[behind]->0.prev_checksum
            &&& joined(g.slots).len() <= g.frame_len ==> frame == joined(g.slots)
            &&& joined(g.slots).len() > g.frame_len ==> frame == joined(g.slots).take(
                g.frame_len as int,
            )
            &&& spec_decode_frame(frame) matches Ok((h, _)) && h.frame_type == g.frame_type
                && h.request_id == id
        },
        !all_match(g.slots) ==> assembled(g, id) == Err::<Seq<u8>, _>(
            UdpChunkError::ChecksumMismatch,
        ),
{
    if assembled(g, id) is Ok {
        let n = g.slots.len() as int;
        let behind = if i == n - 1 {
            0
        } else {
            i + 1
        };
        assert(crate::common::reassembly::neighbours_match(g.slots, i));
        assert(crate::common::reassembly::neighbours_match(g.slots, behind));
    }
}

/// Chunks whose checksums are right are put together: what they make up, up to the length
/// of the frame, is the frame if it is one and its header says what the chunks say. The
/// reason why not is said otherwise.
pub proof fn law_right_chunks_are_assembled(g: GroupView, id: u64, frame: Seq<u8>)
    requires
        all_match(g.slots),
        joined(g.slots).len() <= g.frame_len ==> frame == joined(g.slots),
        joined(g.slots).len() > g.frame_len ==> frame == joined(g.slots).take(g.frame_len as int),
    ensures
        spec_decode_frame(frame) matches Err(e) ==> assembled(g, id) == Err::<Seq<u8>, _>(
            UdpChunkError::Frame(e),
        ),
        spec_decode_frame(frame) matches Ok((h, _)) ==> (if h.frame_type == g.frame_type
            && h.request_id == id {
            assembled(g, id) == Ok::<Seq<u8>, UdpChunkError>(frame)
        } else {
            assembled(g, id) == Err::<Seq<u8>, UdpChunkError>(UdpChunkError::MetadataMismatch)
        }),
{
}

// ---------------------------------------------------------------------------
// Datagrams of a peer

/// The chunks of a peer count until their deadline; after it they are forgotten, and new
/// ones have the whole time again.
pub proof fn law_chunks_of_a_peer(s: ServerView, peer: Seq<char>, now_ms: u64)
    ensures
        s.chunks.contains_key(peer) && now_ms < s.chunks[peer].deadline ==> chunks_of(
            s,
            peer,
            now_ms,
        ) == s.chunks[peer],
        !s.chunks.contains_key(peer) || now_ms >= s.chunks[peer].deadline ==> {
            let c = chunks_of(s, peer, now_ms);
            &&& c.groups == Map::<u64, GroupView>::empty()
            &&& now_ms + s.idle_timeout_ms <= u64::MAX ==> c.deadline == now_ms + s.idle_timeout_ms
            &&& now_ms + s.idle_timeout_ms > u64::MAX ==> c.deadline == u64::MAX
        },
{
}

/// A datagram that cannot be read is dropped. A whole frame is looked at at once; a chunk
/// is kept with those of its peer, and its frame is looked at when it is complete.
pub proof fn law_datagram_of_a_peer(s: ServerView, peer: AddrView, datagram: Seq<u8>, now_ms: u64)
    ensures
        ({
            let r = after_datagram(s, peer, datagram, now_ms);
            let key = addr_key(peer);
            &&& spec_decode_single(datagram) matches Err(e) ==> r == (s, StepView::Dropped(e))
            &&& spec_decode_single(datagram) matches Ok(Some(frame)) ==> r == after_frame(
                s,
                peer,
                frame,
            )
            &&& spec_decode_single(datagram) matches Ok(None) ==> {
                let before = chunks_of(s, key, now_ms);
                let kept = ServerView {
                    chunks: s.chunks.insert(
                        key,
                        PeerChunks {
                            groups: groups_after(before.groups, datagram),
                            deadline: before.deadline,
                        },
                    ),
                    ..s
                };
                match outcome(before.groups, datagram) {
                    Ok(Some(frame)) => r == after_frame(kept, peer, frame),
                    Ok(None) => r == (kept, StepView::Next),
                    Err(e) => r == (kept, StepView::Dropped(e)),
                }
            }
        }),
{
}

/// What is done with a frame: a farewell ends the peer and forgets its chunks; a handshake
/// or an empty query is answered in one datagram if it can be, for which the room to the
/// peer has to be known; other requests are read, and what is no request is refused.
pub proof fn law_frame_of_a_peer(s: ServerView, peer: AddrView, frame: Seq<u8>)
    ensures
        ({
            let (next, step) = after_frame(s, peer, frame);
            &&& next.caps == s.caps && next.configured_mtu == s.configured_mtu
                && next.idle_timeout_ms == s.idle_timeout_ms
            &&& spec_decode_frame(frame) matches Err(e) ==> next == s && step
                == StepView::FrameFailed(TransportError::FrameDecode(e))
            &&& spec_decode_frame(frame) matches Ok((h, p)) ==> {
                let t = h.frame_type;
                let known = s.caps.contains_key(addr_key(peer));
                let job = JobView { peer, header: h, payload: p };
                &&& t == FrameType::Disconnect ==> step == StepView::Disconnected(
                    trimmed(text_in(p)),
                ) && !next.chunks.contains_key(addr_key(peer)) && next.phase == s.phase
                &&& t != FrameType::Disconnect ==> next.chunks == s.chunks
                &&& t == FrameType::HandshakeRequest && known ==> step == StepView::ParseHandshake(
                    p,
                ) && next.phase == PhaseView::HandshakeForOne(job)
                &&& t == FrameType::QueryRequest && p.len() == 0 && known ==> step
                    == StepView::FetchEntry && next.phase == PhaseView::EntryForOne(
                    job,
                    Request::Runtime(h.request_id),
                )
                &&& (t == FrameType::HandshakeRequest || (t == FrameType::QueryRequest && p.len()
                    == 0)) && !known ==> step == StepView::FindMtu && next.phase
                    == PhaseView::RoomForOne(job)
                &&& t == FrameType::QueryRequest && p.len() > 0 ==> step == StepView::ParseQuery(p)
                    && next.phase == PhaseView::Parsing(job)
                &&& t != FrameType::Disconnect && t != FrameType::HandshakeRequest && t
                    != FrameType::QueryRequest ==> step == StepView::FrameFailed(
                    TransportError::UnexpectedFrameType(t),
                ) && next.phase == PhaseView::Idle
            }
        }),
{
}

/// The room to a peer: from the configured size of packets, else from the one that was
/// found, else from 1200, less the headers, and 256 at the least.
pub proof fn law_room_to_a_peer(s: ServerView, peer: AddrView, mtu: Option<usize>)
    requires
        mtu is Some ==> mtu->0 <= 65535,
    ensures
        ({
            let size: int = if s.configured_mtu > 0 {
                s.configured_mtu as int
            } else if mtu is Some {
                mtu->0 as int
            } else {
                1200
            };
            let headers: int = if peer.ipv4 {
                60
            } else {
                80
            };
            let room = room_for(s, peer, mtu) as int;
            &&& size - headers >= 256 ==> room == size - headers
            &&& size - headers < 256 ==> room == 256
        }),
{
}

/// When the room to a peer is known it is noted, and what waited for it goes on: the
/// request, or the answer, which is sent.
pub proof fn law_after_the_room_is_known(s: ServerView, mtu: Option<usize>)
    ensures
        s.phase matches PhaseView::RoomForOne(job) ==> {
            let (next, step) = after_mtu(s, mtu);
            &&& next.caps == s.caps.insert(addr_key(job.peer), room_for(s, job.peer, mtu))
            &&& next.chunks == s.chunks
            &&& job.header.frame_type == FrameType::HandshakeRequest ==> step
                == StepView::ParseHandshake(job.payload) && next.phase
                == PhaseView::HandshakeForOne(job)
            &&& job.header.frame_type != FrameType::HandshakeRequest ==> step
                == StepView::FetchEntry && next.phase == PhaseView::EntryForOne(
                job,
                Request::Runtime(job.header.request_id),
            )
        },
        s.phase matches PhaseView::RoomForAnswer(job, answer) ==> {
            let (next, step) = after_mtu(s, mtu);
            &&& next.caps == s.caps.insert(addr_key(job.peer), room_for(s, job.peer, mtu))
            &&& next.chunks == s.chunks
            &&& next.phase == PhaseView::Idle
            &&& step == datagrams_for(answer, room_for(s, job.peer, mtu))
        },
{
}

/// When a request was read its entry is fetched, and one that is refused ends there.
pub proof fn law_after_the_request_is_read(s: ServerView, asked: Result<Request, TransportError>)
    ensures
        ({
            let (next, step) = after_request(s, asked);
            &&& next.chunks == s.chunks && next.caps == s.caps
            &&& asked matches Err(e) ==> step == StepView::FrameFailed(e) && next.phase
                == PhaseView::Idle
            &&& asked matches Ok(request) ==> step == StepView::FetchEntry
            &&& asked matches Ok(request) ==> (s.phase matches PhaseView::HandshakeForOne(job)
                ==> next.phase == PhaseView::EntryForOne(job, request))
            &&& asked matches Ok(request) ==> (s.phase matches PhaseView::Parsing(job)
                ==> next.phase == PhaseView::Entry(job, request))
        }),
{
}

/// An answer that fits goes out in one datagram, from which it is taken unchanged; a longer
/// one in chunks that make it up.
pub proof fn law_answer_goes_out_whole(answer: Seq<u8>, room: usize)
    requires
        0 < answer.len() <= 65535,
        spec_decode_frame(answer) is Ok,
        256 <= room,
    ensures
        answer.len() <= room ==> (datagrams_for(answer, room) matches StepView::Send(v) && v.len()
            == 1 && spec_decode_single(v[0]) == Ok::<Option<Seq<u8>>, UdpChunkError>(Some(answer))),
        answer.len() > room ==> (datagrams_for(answer, room) matches StepView::Send(v) && v.len()
            == chunk_count(answer.len(), room as nat) && chunks_joined(
            answer,
            room as nat,
            v.len(),
        ) == answer && (forall|i: int|
            0 <= i < v.len() ==> (#[trigger] v[i]).skip(32) == crate::common::udp::chunk(
                answer,
                room as nat,
                i,
            ))),
{
    if answer.len() <= room {
        law_single_datagram(answer);
        crate::common::udp::law_single_chunk_reads_back(answer);
    } else {
        let m = room as nat;
        crate::common::udp::lemma_chunk_bounds(answer.len(), m, 0);
        law_chunks_make_up_the_frame(answer, m, 0);
        let header = spec_decode_frame(answer)->Ok_0;
        let v = datagrams_for(answer, room)->Send_0;
        assert forall|i: int| 0 <= i < v.len() implies (#[trigger] v[i]).skip(32)
            == crate::common::udp::chunk(answer, m, i) by {
            let h = crate::common::udp::chunk_header(answer, header.0, m, i);
            crate::laws::wire::law_chunk_header_layout(h);
            assert(v[i].skip(32) =~= crate::common::udp::chunk(answer, m, i));
        }
    }
}

/// The answer to a request that waits for its entry: it is sent in one datagram if it fits
/// into the room to its peer, and otherwise as a frame in as many as it needs.
pub proof fn law_after_the_entry_is_there(
    s: ServerView,
    entry: Result<EntryView, ErrorCode>,
    next: ServerView,
    step: StepView,
)
    requires
        after_entry(s, entry, next, step),
    ensures
        next.chunks == s.chunks && next.caps == s.caps,
        s.phase matches PhaseView::EntryForOne(job, request) ==> (reply(
            request,
            entry,
        ) matches Some((t, p)) ==> 18 + p.len() <= s.caps[addr_key(job.peer)] && 18 + p.len()
            <= 65535 ==> next.phase == PhaseView::Idle && (step matches StepView::Send(v) && v.len()
            == 1 && spec_decode_single(v[0]) == Ok::<Option<Seq<u8>>, UdpChunkError>(
            Some(frame_bytes(header_for(t, request.spec_id()), p)),
        ))),
        s.phase matches PhaseView::Entry(job, request) ==> (reply(request, entry) matches Some(
            (t, p),
        ) ==> {
            let answer = frame_bytes(header_for(t, request.spec_id()), p);
            let key = addr_key(job.peer);
            &&& s.caps.contains_key(key) ==> next.phase == PhaseView::Idle && step == datagrams_for(
                answer,
                s.caps[key],
            )
            &&& !s.caps.contains_key(key) ==> next.phase == PhaseView::RoomForAnswer(job, answer)
                && step == StepView::FindMtu
        }),
        s.phase matches PhaseView::Entry(job, request) ==> (reply(request, entry) is None
            ==> next.phase == PhaseView::Idle && step is FrameFailed),
{
    if let PhaseView::EntryForOne(job, request) = s.phase {
        if let Some((t, p)) = reply(request, entry) {
            let header = header_for(t, request.spec_id());
            if 18 + p.len() <= 65535 {
                let frame = frame_bytes(header, p);
                crate::common::udp::law_parts_build_the_same_datagram(t, request.spec_id(), p);
                law_frame_reads_back(header, p);
                law_frame_layout(header, p);
                law_single_datagram(frame);
                crate::common::udp::law_single_chunk_reads_back(frame);
            }
        }
    }
}

} // verus!
