//! Laws of what goes over the wire.

use vstd::prelude::*;
use vstd::arithmetic::div_mod::lemma_div_denominator;
use vstd::utf8::encode_utf8;
use crate::bytes::{
    be_bytes, be_value, byte_capacity, law_be_value_of_be_bytes, le_bytes, lemma_be_bytes_len,
    lemma_byte_capacities,
};
use crate::common::crc::{crc32, crc_bit, crc_byte, crc_state};
use crate::common::frame::{
    frame_bytes, lemma_header_bytes, spec_decode_frame, FrameDecodeError, FrameHeader,
    FrameHeaderError, FrameType,
};
use crate::common::payload::{
    gres_room, is_payload, metadata_fits, metadata_in, metadata_room, metadata_unarchived, opt_room,
    processes_room, runtime_fits, runtime_in, runtime_room, runtime_unarchived, runtimes_room,
    snapshot_fits, snapshot_in, snapshot_room, snapshot_unarchived, stamped, statics_room,
    wire_gres_view, wire_metadata_view, wire_process_view, wire_runtime_gres_view,
    wire_runtime_process, wire_runtime_view, wire_snapshot_view, wire_static_view,
    PayloadEncodeError, WireGres, WireMetadata, WireProcess, WireRuntime, WireRuntimeGres,
    WireSnapshot, WireStatic,
};
use crate::common::reassembly::{joined, SlotView};
use crate::common::snapshot::{
    opt_text, GresView, HostMetadata, MetadataView, ProcessView, RuntimeGresView, RuntimeSnapshot,
    RuntimeView, ServerGresSnapshot, SnapshotView, StaticView,
};
use crate::common::udp::{
    chunk, chunk_count, chunk_datagram, chunk_end, chunk_header, cutting_fault, lemma_chunk_bounds,
    lemma_chunk_header_bytes, payload_room, spec_decode_single, spec_encode_single, word_behind,
    UdpChunkError, UdpChunkHeader,
};

verus! {

// ---------------------------------------------------------------------------
// Bytes

/// The bytes of a number: byte `i` from the right counts how often 256 to the
/// power `i` goes into it. In network order the first byte counts most, in
/// little-endian order the last.
pub proof fn law_byte_order(v: nat, n: nat, i: nat)
    requires
        i < n,
    ensures
        be_bytes(v, n).len() == n,
        le_bytes(v, n).len() == n,
        be_bytes(v, n)[n - 1 - i] as nat == (v / byte_capacity(i)) % 256,
        le_bytes(v, n)[i as int] as nat == (v / byte_capacity(i)) % 256,
        byte_capacity(0) == 1,
        byte_capacity(i + 1) == 256 * byte_capacity(i),
    decreases n,
{
    lemma_be_bytes_len(v, n);
    let b = be_bytes(v, n);
    let rest = be_bytes(v / 256, (n - 1) as nat);
    lemma_be_bytes_len(v / 256, (n - 1) as nat);
    if i > 0 {
        law_byte_order(v / 256, (n - 1) as nat, (i - 1) as nat);
        let c = byte_capacity((i - 1) as nat);
        lemma_capacity_positive((i - 1) as nat);
        lemma_div_denominator(v as int, 256, c as int);
        assert(b[n - 1 - i] == rest[n - 1 - i]);
        assert(byte_capacity(i) == 256 * c);
    } else {
        assert(b[n - 1] == (v % 256) as u8);
        assert(v / 1 == v);
    }
}

proof fn lemma_capacity_positive(n: nat)
    ensures
        byte_capacity(n) > 0,
    decreases n,
{
    if n > 0 {
        lemma_capacity_positive((n - 1) as nat);
    }
}

// ---------------------------------------------------------------------------
// Checksums

/// The checksum is the reflected CRC-32: it starts from all ones and ends with all
/// bits turned, a byte is added to the low end and shifted out bit by bit, and each
/// one that is shifted out adds the polynomial.
pub proof fn law_checksum(s: Seq<u8>, b: u8, c: u32)
    ensures
        crc32(Seq::empty()) == 0,
        crc32(s) ^ 0xffff_ffff == crc_state(s),
        crc_state(s.push(b)) == crc_byte(crc_state(s), b),
        crc_byte(c, 0) == crc_bit(
            crc_bit(crc_bit(crc_bit(crc_bit(crc_bit(crc_bit(crc_bit(c))))))),
        ),
        crc_byte(c, b) == crc_byte(c ^ (b as u32), 0),
        c < 0x8000_0000 ==> crc_bit((2 * c) as u32) == c,
        c < 0x8000_0000 ==> crc_bit((2 * c + 1) as u32) == c ^ 0xedb8_8320,
{
    reveal(crc32);
    let none = crc_state(Seq::<u8>::empty());
    assert(none == 0xffff_ffffu32);
    assert(none ^ 0xffff_ffffu32 == 0u32) by (bit_vector)
        requires
            none == 0xffff_ffffu32,
    ;
    let x = crc_state(s);
    assert((x ^ 0xffff_ffffu32) ^ 0xffff_ffffu32 == x) by (bit_vector);
    assert(s.push(b).drop_last() =~= s);
    let y = b as u32;
    assert(c ^ 0u32 == c) by (bit_vector);
    assert((c ^ y) ^ 0u32 == c ^ y) by (bit_vector);
    if c < 0x8000_0000 {
        let even = (2 * c) as u32;
        let odd = (2 * c + 1) as u32;
        assert(even & 1 == 0 && even >> 1 == c) by (bit_vector)
            requires
                even == 2 * c,
                c < 0x8000_0000,
        ;
        assert(odd & 1 == 1 && odd >> 1 == c) by (bit_vector)
            requires
                odd == 2 * c + 1,
                c < 0x8000_0000,
        ;
    }
}

// ---------------------------------------------------------------------------
// Frames

/// The numbers of the frame types.
pub proof fn law_frame_type_numbers()
    ensures
        FrameType::DiscoveryQuery.spec_code() == 1,
        FrameType::DiscoveryAnnounce.spec_code() == 2,
        FrameType::HandshakeRequest.spec_code() == 3,
        FrameType::HandshakeInfo.spec_code() == 4,
        FrameType::QueryRequest.spec_code() == 5,
        FrameType::QueryResponse.spec_code() == 6,
        FrameType::DataPayload.spec_code() == 7,
        FrameType::Heartbeat.spec_code() == 8,
        FrameType::Disconnect.spec_code() == 9,
        FrameType::MetadataPayload.spec_code() == 10,
        FrameType::RuntimePayload.spec_code() == 11,
        forall|code: u8|
            (#[trigger] FrameType::spec_of_code(code)) is Some <==> 1 <= code <= 11,
{
}

/// A frame: `G4C1`, the version, the type, the request number in eight bytes and
/// the length of the payload in four, all in network order, and then the payload.
pub proof fn law_frame_layout(header: FrameHeader, payload: Seq<u8>)
    requires
        payload.len() <= u32::MAX,
    ensures
        ({
            let b = frame_bytes(header, payload);
            &&& b.len() == 18 + payload.len()
            &&& b[0] == 'G' as u8 && b[1] == '4' as u8 && b[2] == 'C' as u8 && b[3] == '1' as u8
            &&& b[4] == header.version
            &&& b[5] == header.frame_type.spec_code()
            &&& be_value(b.subrange(6, 14)) == header.request_id
            &&& be_value(b.subrange(14, 18)) == payload.len()
            &&& b.skip(18) == payload
        }),
{
    let h = header.with_len(payload.len());
    lemma_header_bytes(h);
    let a = h.spec_bytes();
    let b = frame_bytes(header, payload);
    lemma_byte_capacities();
    law_be_value_of_be_bytes(h.request_id as nat, 8);
    law_be_value_of_be_bytes(h.payload_len as nat, 4);
    let front = crate::common::frame::FRAME_MAGIC@ + seq![h.version, h.frame_type.spec_code()];
    assert(a =~= front + be_bytes(h.request_id as nat, 8) + be_bytes(h.payload_len as nat, 4));
    assert(a.len() == 18);
    assert(b.skip(18) =~= payload);
    assert(b.subrange(6, 14) =~= be_bytes(h.request_id as nat, 8));
    assert(b.subrange(14, 18) =~= be_bytes(h.payload_len as nat, 4));
    assert(b[0] == crate::common::frame::FRAME_MAGIC@[0]);
    assert(b[1] == crate::common::frame::FRAME_MAGIC@[1]);
    assert(b[2] == crate::common::frame::FRAME_MAGIC@[2]);
    assert(b[3] == crate::common::frame::FRAME_MAGIC@[3]);
}

/// Bytes are refused as a frame: fewer than a header, another mark, another
/// version, an unknown type, or another number of payload bytes than announced, the
/// first of these that holds being the reason. All others are read, field by field.
pub proof fn law_frame_is_read(b: Seq<u8>)
    ensures
        ({
            let r = spec_decode_frame(b);
            let short = b.len() < 18;
            let other = !(b[0] == 'G' as u8 && b[1] == '4' as u8 && b[2] == 'C' as u8 && b[3]
                == '1' as u8);
            let version = b[4] != 1;
            let kind = b[5] < 1 || b[5] > 11;
            let len = be_value(b.subrange(14, 18));
            &&& short ==> r == Err::<(FrameHeader, Seq<u8>), _>(
                FrameDecodeError::ShortHeader { got: b.len() as usize, min: 18 },
            )
            &&& !short && other ==> r == Err::<(FrameHeader, Seq<u8>), _>(
                FrameDecodeError::BadMagic,
            )
            &&& !short && !other && version ==> r == Err::<(FrameHeader, Seq<u8>), _>(
                FrameDecodeError::VersionMismatch { expected: 1, got: b[4] },
            )
            &&& !short && !other && !version && kind ==> r == Err::<(FrameHeader, Seq<u8>), _>(
                FrameDecodeError::UnknownFrameType(b[5]),
            )
            &&& !short && !other && !version && !kind && b.len() - 18 != len ==> r == Err::<
                (FrameHeader, Seq<u8>),
                _,
            >(
                FrameDecodeError::PayloadLengthMismatch {
                    expected: len as usize,
                    actual: (b.len() - 18) as usize,
                },
            )
            &&& !short && !other && !version && !kind && b.len() - 18 == len ==> r is Ok && {
                let (h, p) = r->Ok_0;
                &&& p == b.skip(18)
                &&& h.version == 1
                &&& h.frame_type.spec_code() == b[5]
                &&& h.request_id == be_value(b.subrange(6, 14))
                &&& h.payload_len == len
            }
        }),
{
    lemma_byte_capacities();
    if b.len() >= 18 {
        let magic = crate::common::frame::FRAME_MAGIC@;
        let head = b.subrange(0, 4);
        assert(head[0] == b[0] && head[1] == b[1] && head[2] == b[2] && head[3] == b[3]);
        if b[0] == 'G' as u8 && b[1] == '4' as u8 && b[2] == 'C' as u8 && b[3] == '1' as u8 {
            assert(head =~= magic);
        } else {
            assert(head[0] != magic[0] || head[1] != magic[1] || head[2] != magic[2] || head[3]
                != magic[3]);
        }
        crate::bytes::lemma_be_value_bound(b.subrange(6, 14));
        crate::bytes::lemma_be_value_bound(b.subrange(14, 18));
    }
}

// ---------------------------------------------------------------------------
// Datagrams

/// The header of a chunk: `G4U1`, the version, the type and the request of the
/// frame, its length, the number of the chunk, how many there are, the length of
/// the chunk and the checksums of its two neighbours, all in network order.
pub proof fn law_chunk_header_layout(h: UdpChunkHeader)
    ensures
        ({
            let b = h.spec_bytes();
            &&& b.len() == 32
            &&& b[0] == 'G' as u8 && b[1] == '4' as u8 && b[2] == 'U' as u8 && b[3] == '1' as u8
            &&& b[4] == h.version
            &&& b[5] == h.frame_type.spec_code()
            &&& be_value(b.subrange(6, 14)) == h.request_id
            &&& be_value(b.subrange(14, 18)) == h.frame_len
            &&& be_value(b.subrange(18, 20)) == h.chunk_id
            &&& be_value(b.subrange(20, 22)) == h.total_chunks
            &&& be_value(b.subrange(22, 24)) == h.payload_len
            &&& be_value(b.subrange(24, 28)) == h.prev_checksum
            &&& be_value(b.subrange(28, 32)) == h.next_checksum
        }),
{
    let b = h.spec_bytes();
    lemma_chunk_header_bytes(h);
    lemma_byte_capacities();
    law_be_value_of_be_bytes(h.request_id as nat, 8);
    law_be_value_of_be_bytes(h.frame_len as nat, 4);
    law_be_value_of_be_bytes(h.chunk_id as nat, 2);
    law_be_value_of_be_bytes(h.total_chunks as nat, 2);
    law_be_value_of_be_bytes(h.payload_len as nat, 2);
    law_be_value_of_be_bytes(h.prev_checksum as nat, 4);
    law_be_value_of_be_bytes(h.next_checksum as nat, 4);
    let magic = crate::common::udp::UDP_CHUNK_MAGIC@;
    let x1 = magic + seq![h.version, h.frame_type.spec_code()];
    let x2 = x1 + be_bytes(h.request_id as nat, 8);
    let x3 = x2 + be_bytes(h.frame_len as nat, 4);
    let x4 = x3 + be_bytes(h.chunk_id as nat, 2);
    let x5 = x4 + be_bytes(h.total_chunks as nat, 2);
    let x6 = x5 + be_bytes(h.payload_len as nat, 2);
    let x7 = x6 + be_bytes(h.prev_checksum as nat, 4);
    let x8 = x7 + be_bytes(h.next_checksum as nat, 4);
    assert(b == x8);
    assert(b.subrange(6, 14) =~= be_bytes(h.request_id as nat, 8));
    assert(b.subrange(14, 18) =~= be_bytes(h.frame_len as nat, 4));
    assert(b.subrange(18, 20) =~= be_bytes(h.chunk_id as nat, 2));
    assert(b.subrange(20, 22) =~= be_bytes(h.total_chunks as nat, 2));
    assert(b.subrange(22, 24) =~= be_bytes(h.payload_len as nat, 2));
    assert(b.subrange(24, 28) =~= be_bytes(h.prev_checksum as nat, 4));
    assert(b.subrange(28, 32) =~= be_bytes(h.next_checksum as nat, 4));
    assert(b[0] == magic[0] && b[1] == magic[1] && b[2] == magic[2] && b[3] == magic[3]);
    assert(b[4] == x1[4] && b[5] == x1[5]);
}

/// The chunks from the first to the one before `n`, one behind the other.
pub open spec fn chunks_joined(frame: Seq<u8>, max_payload: nat, n: nat) -> Seq<u8>
    decreases n,
{
    if n == 0 {
        Seq::empty()
    } else {
        chunks_joined(frame, max_payload, (n - 1) as nat) + chunk(frame, max_payload, n - 1)
    }
}

proof fn lemma_chunks_joined(frame: Seq<u8>, m: nat, n: nat)
    requires
        m > 0,
        0 < n <= chunk_count(frame.len(), m),
    ensures
        chunks_joined(frame, m, n) == frame.take(chunk_end(frame.len(), m, n - 1)),
    decreases n,
{
    lemma_chunk_bounds(frame.len(), m, n - 1);
    let part = chunk(frame, m, n - 1);
    if n > 1 {
        lemma_chunks_joined(frame, m, (n - 1) as nat);
        lemma_chunk_bounds(frame.len(), m, n - 2);
        assert((n - 2 + 1) * m == (n - 1) * m) by (nonlinear_arith);
        assert(chunk_end(frame.len(), m, n - 2) == (n - 1) * m);
    } else {
        assert((n - 1) * m == 0) by (nonlinear_arith)
            requires
                n == 1,
        ;
        assert(chunks_joined(frame, m, 0) =~= frame.take(0));
    }
    assert(chunks_joined(frame, m, n) =~= frame.take(chunk_end(frame.len(), m, n - 1)));
}

/// Cutting a frame: the chunks one behind the other are the frame, none is empty or
/// longer than allowed, and all but the last are as long as allowed.
pub proof fn law_chunks_make_up_the_frame(frame: Seq<u8>, max_payload: nat, i: int)
    requires
        frame.len() > 0,
        max_payload > 0,
        0 <= i < chunk_count(frame.len(), max_payload),
    ensures
        ({
            let n = chunk_count(frame.len(), max_payload);
            &&& chunks_joined(frame, max_payload, n) == frame
            &&& 0 < chunk(frame, max_payload, i).len() <= max_payload
            &&& i < n - 1 ==> chunk(frame, max_payload, i).len() == max_payload
        }),
{
    let n = chunk_count(frame.len(), max_payload);
    lemma_chunks_joined(frame, max_payload, n);
    lemma_chunk_bounds(frame.len(), max_payload, n - 1);
    lemma_chunk_bounds(frame.len(), max_payload, i);
    let len = frame.len();
    let q = (len - 1) / max_payload as int;
    assert(n == q + 1);
    assert(q * max_payload <= len - 1 < (q + 1) * max_payload) by (nonlinear_arith)
        requires
            q == (len - 1) / max_payload as int,
            max_payload > 0,
            len > 0,
    ;
    assert((n - 1 + 1) * max_payload == (q + 1) * max_payload);
    assert(chunk_end(len, max_payload, n - 1) == len);
    assert(frame.take(len as int) =~= frame);
    if i < n - 1 {
        assert((i + 1) * max_payload <= q * max_payload) by (nonlinear_arith)
            requires
                i + 1 <= q,
        ;
        assert((i + 1) * max_payload - i * max_payload == max_payload) by (nonlinear_arith);
    }
}

/// Each chunk goes out under the type and the request of the frame, says how long
/// the frame is, which chunk of how many it is and how long it is, and carries the
/// checksums of the chunks before and behind it, the first and the last of which are
/// neighbours.
pub proof fn law_chunk_tells(frame: Seq<u8>, header: FrameHeader, max_payload: nat, i: int)
    requires
        frame.len() > 0,
        frame.len() <= u32::MAX,
        0 < max_payload <= u16::MAX,
        0 <= i < chunk_count(frame.len(), max_payload) <= u16::MAX,
    ensures
        ({
            let h = chunk_header(frame, header, max_payload, i);
            let n = chunk_count(frame.len(), max_payload) as int;
            &&& h.version == 1
            &&& h.frame_type == header.frame_type
            &&& h.request_id == header.request_id
            &&& h.frame_len == frame.len()
            &&& h.chunk_id == i
            &&& h.total_chunks == n
            &&& h.payload_len == chunk(frame, max_payload, i).len()
            &&& h.prev_checksum == crc32(
                chunk(
                    frame,
                    max_payload,
                    if i == 0 {
                        n - 1
                    } else {
                        i - 1
                    },
                ),
            )
            &&& h.next_checksum == crc32(
                chunk(
                    frame,
                    max_payload,
                    if i == n - 1 {
                        0
                    } else {
                        i + 1
                    },
                ),
            )
            &&& chunk_datagram(frame, header, max_payload, i).take(32) == h.spec_bytes()
            &&& chunk_datagram(frame, header, max_payload, i).skip(32) == chunk(
                frame,
                max_payload,
                i,
            )
        }),
{
    lemma_chunk_bounds(frame.len(), max_payload, i);
    law_chunks_make_up_the_frame(frame, max_payload, i);
    let h = chunk_header(frame, header, max_payload, i);
    law_chunk_header_layout(h);
    let d = chunk_datagram(frame, header, max_payload, i);
    assert(d.take(32) =~= h.spec_bytes());
    assert(d.skip(32) =~= chunk(frame, max_payload, i));
}

/// Why a frame is not cut, the first of these that holds: it is empty, the room for
/// a chunk is below 256, it is no frame, it is too long, or there would be too many
/// chunks. Any other frame is cut.
pub proof fn law_what_is_not_cut(frame: Seq<u8>, max_payload: nat)
    ensures
        ({
            let n = chunk_count(frame.len(), max_payload);
            let fault = cutting_fault(frame, max_payload);
            let good = spec_decode_frame(frame) is Ok;
            &&& frame.len() == 0 ==> fault == Some(UdpChunkError::EmptyFrame)
            &&& frame.len() > 0 && max_payload < 256 ==> fault == Some(
                UdpChunkError::PayloadTooSmall { got: max_payload as usize, min: 256 },
            )
            &&& frame.len() > 0 && max_payload >= 256 && !good ==> fault == Some(
                UdpChunkError::Frame(spec_decode_frame(frame)->Err_0),
            )
            &&& frame.len() > 4294967295 && max_payload >= 256 && good ==> fault == Some(
                UdpChunkError::FrameTooLarge { len: frame.len() as usize },
            )
            &&& 0 < frame.len() <= 4294967295 && max_payload >= 256 && good && n > 65535
                ==> fault == Some(UdpChunkError::TooManyChunks { chunks: n as usize })
            &&& 0 < frame.len() <= 4294967295 && max_payload >= 256 && good && n <= 65535
                ==> fault is None
        }),
{
}

/// A frame goes out in one datagram if it is one and is not too long: a header that
/// says so, with the checksum of the frame twice, and the frame.
pub proof fn law_single_datagram(frame: Seq<u8>)
    ensures
        frame.len() == 0 ==> spec_encode_single(frame) == Err::<Seq<u8>, _>(
            UdpChunkError::EmptyFrame,
        ),
        frame.len() > 65535 ==> spec_encode_single(frame) == Err::<Seq<u8>, _>(
            UdpChunkError::PayloadTooLarge { len: frame.len() as usize, max: 65535 },
        ),
        0 < frame.len() <= 65535 ==> (spec_decode_frame(frame) matches Err(e)
            ==> spec_encode_single(frame) == Err::<Seq<u8>, _>(UdpChunkError::Frame(e))),
        0 < frame.len() <= 65535 ==> (spec_decode_frame(frame) matches Ok((h, _))
            ==> spec_encode_single(frame) matches Ok(d) && d.len() == 32 + frame.len() && d.skip(32)
            == frame && d[5] == h.frame_type.spec_code() && be_value(d.subrange(6, 14))
            == h.request_id && be_value(d.subrange(14, 18)) == frame.len() && be_value(
            d.subrange(18, 20),
        ) == 0 && be_value(d.subrange(20, 22)) == 1 && be_value(d.subrange(22, 24)) == frame.len()
            && be_value(d.subrange(24, 28)) == crc32(frame) && be_value(d.subrange(28, 32))
            == crc32(frame)),
{
    if 0 < frame.len() <= 65535 {
        if let Ok((header, _)) = spec_decode_frame(frame) {
            let h = UdpChunkHeader {
                version: 1,
                frame_type: header.frame_type,
                request_id: header.request_id,
                frame_len: frame.len() as u32,
                chunk_id: 0,
                total_chunks: 1,
                payload_len: frame.len() as u16,
                prev_checksum: crc32(frame),
                next_checksum: crc32(frame),
            };
            law_chunk_header_layout(h);
            let a = h.spec_bytes();
            let d = a + frame;
            assert(spec_encode_single(frame) == Ok::<Seq<u8>, UdpChunkError>(d));
            assert(d.skip(32) =~= frame);
            assert(d.subrange(6, 14) =~= a.subrange(6, 14));
            assert(d.subrange(14, 18) =~= a.subrange(14, 18));
            assert(d.subrange(18, 20) =~= a.subrange(18, 20));
            assert(d.subrange(20, 22) =~= a.subrange(20, 22));
            assert(d.subrange(22, 24) =~= a.subrange(22, 24));
            assert(d.subrange(24, 28) =~= a.subrange(24, 28));
            assert(d.subrange(28, 32) =~= a.subrange(28, 32));
        }
    }
}

/// What is taken out of a single datagram is the frame in it, and only where both
/// checksums are those of the frame and the frame's own header says the same.
pub proof fn law_single_datagram_is_checked(datagram: Seq<u8>)
    ensures
        spec_decode_single(datagram) matches Ok(Some(frame)) ==> {
            &&& frame == datagram.skip(32)
            &&& be_value(datagram.subrange(24, 28)) == crc32(frame)
            &&& be_value(datagram.subrange(28, 32)) == crc32(frame)
            &&& be_value(datagram.subrange(20, 22)) == 1
            &&& spec_decode_frame(frame) matches Ok((h, _)) && h.frame_type.spec_code()
                == datagram[5] && h.request_id == be_value(datagram.subrange(6, 14))
        },
        spec_decode_single(datagram) == Ok::<Option<Seq<u8>>, UdpChunkError>(None)
            <==> UdpChunkHeader::spec_decode(datagram) is Ok && be_value(
            datagram.subrange(20, 22),
        ) != 1,
{
    lemma_byte_capacities();
    if UdpChunkHeader::spec_decode(datagram) is Ok {
        crate::bytes::lemma_be_value_bound(datagram.subrange(6, 14));
        crate::bytes::lemma_be_value_bound(datagram.subrange(20, 22));
        crate::bytes::lemma_be_value_bound(datagram.subrange(24, 28));
        crate::bytes::lemma_be_value_bound(datagram.subrange(28, 32));
    }
}

/// A datagram is refused as a chunk: shorter than a header, another mark, another
/// version, an unknown type, a chunk number that is none of those announced, or
/// another length than announced, the first of these that holds.
pub proof fn law_chunk_is_read(b: Seq<u8>)
    ensures
        ({
            let r = UdpChunkHeader::spec_decode(b);
            let short = b.len() < 32;
            let other = !(b[0] == 'G' as u8 && b[1] == '4' as u8 && b[2] == 'U' as u8 && b[3]
                == '1' as u8);
            let version = b[4] != 1;
            let kind = b[5] < 1 || b[5] > 11;
            let id = be_value(b.subrange(18, 20));
            let total = be_value(b.subrange(20, 22));
            let len = be_value(b.subrange(22, 24));
            let layout = id >= total;
            &&& short ==> r == Err::<UdpChunkHeader, _>(
                UdpChunkError::ShortDatagram { got: b.len() as usize, min: 32 },
            )
            &&& !short && other ==> r == Err::<UdpChunkHeader, _>(UdpChunkError::BadMagic)
            &&& !short && !other && version ==> r == Err::<UdpChunkHeader, _>(
                UdpChunkError::VersionMismatch { expected: 1, got: b[4] },
            )
            &&& !short && !other && !version && kind ==> r == Err::<UdpChunkHeader, _>(
                UdpChunkError::UnknownFrameType(b[5]),
            )
            &&& !short && !other && !version && !kind && layout ==> r == Err::<UdpChunkHeader, _>(
                UdpChunkError::InvalidChunkLayout,
            )
            &&& !short && !other && !version && !kind && !layout && b.len() - 32 != len ==> r
                == Err::<UdpChunkHeader, _>(
                UdpChunkError::PayloadLengthMismatch {
                    expected: len as usize,
                    actual: (b.len() - 32) as usize,
                },
            )
            &&& !short && !other && !version && !kind && !layout && b.len() - 32 == len ==> r is Ok
                && {
                let h = r->Ok_0;
                &&& h.version == 1
                &&& h.frame_type.spec_code() == b[5]
                &&& h.request_id == be_value(b.subrange(6, 14))
                &&& h.frame_len == be_value(b.subrange(14, 18))
                &&& h.chunk_id == id
                &&& h.total_chunks == total
                &&& h.payload_len == len
                &&& h.prev_checksum == be_value(b.subrange(24, 28))
                &&& h.next_checksum == be_value(b.subrange(28, 32))
            }
        }),
{
    lemma_byte_capacities();
    if b.len() >= 32 {
        let magic = crate::common::udp::UDP_CHUNK_MAGIC@;
        let head = b.subrange(0, 4);
        assert(head[0] == b[0] && head[1] == b[1] && head[2] == b[2] && head[3] == b[3]);
        if b[0] == 'G' as u8 && b[1] == '4' as u8 && b[2] == 'U' as u8 && b[3] == '1' as u8 {
            assert(head =~= magic);
        } else {
            assert(head[0] != magic[0] || head[1] != magic[1] || head[2] != magic[2] || head[3]
                != magic[3]);
        }
        crate::bytes::lemma_be_value_bound(b.subrange(6, 14));
        crate::bytes::lemma_be_value_bound(b.subrange(14, 18));
        crate::bytes::lemma_be_value_bound(b.subrange(18, 20));
        crate::bytes::lemma_be_value_bound(b.subrange(20, 22));
        crate::bytes::lemma_be_value_bound(b.subrange(22, 24));
        crate::bytes::lemma_be_value_bound(b.subrange(24, 28));
        crate::bytes::lemma_be_value_bound(b.subrange(28, 32));
    }
}

/// Chunks are joined in the order of their numbers.
pub proof fn law_chunks_are_joined(slots: Seq<Option<SlotView>>, slot: SlotView)
    ensures
        joined(Seq::empty()) == Seq::<u8>::empty(),
        joined(slots.push(Some(slot))) == joined(slots) + slot.payload,
{
    assert(slots.push(Some(slot)).drop_last() =~= slots);
}

/// The room for a chunk in a datagram is what the network carries at once less the
/// headers of IP, UDP and the chunk, and 256 at the least.
pub proof fn law_room_for_a_chunk(ipv4: bool, mtu: int)
    ensures
        ipv4 && mtu >= 316 ==> payload_room(ipv4, mtu) == mtu - 60,
        !ipv4 && mtu >= 336 ==> payload_room(ipv4, mtu) == mtu - 80,
        payload_room(ipv4, mtu) >= 256,
        ipv4 && mtu < 316 ==> payload_room(ipv4, mtu) == 256,
        !ipv4 && mtu < 336 ==> payload_room(ipv4, mtu) == 256,
{
}

/// The word behind a mark: of the first place where the mark stands with a word
/// behind it.
pub proof fn law_word_behind(
    before: Seq<Seq<char>>,
    mark: Seq<char>,
    word: Seq<char>,
    rest: Seq<Seq<char>>,
)
    requires
        !before.contains(mark),
    ensures
        word_behind(before + (seq![mark, word] + rest), mark) == Some(word),
        word_behind(before, mark) is None,
        word_behind(before.push(mark), mark) is None,
    decreases before.len(),
{
    let all = before + (seq![mark, word] + rest);
    if before.len() > 0 {
        let tail = before.drop_first();
        assert(before[0] != mark) by {
            assert(before.contains(before[0]));
        }
        assert(!tail.contains(mark)) by {
            if tail.contains(mark) {
                let i = tail.index_of(mark);
                assert(before[i + 1] == mark);
            }
        }
        law_word_behind(tail, mark, word, rest);
        assert(all.drop_first() =~= tail + (seq![mark, word] + rest));
        assert(all[0] == before[0]);
        assert(before.push(mark).drop_first() =~= tail.push(mark));
        assert(before.push(mark)[0] == before[0]);
    } else {
        assert(all[0] == mark && all[1] == word);
    }
}

// ---------------------------------------------------------------------------
// Payloads

/// What is archived of a snapshot, in this order: of a process its pid, owner,
/// command and memory; of a resource its index, name, temperature, identifier, used
/// and total memory, utilization and processes; of a node its name, driver and
/// resources.
pub proof fn law_archived_snapshot(w: WireSnapshot, g: WireGres, p: WireProcess, i: int)
    ensures
        wire_process_view(p).pid == p.0,
        wire_process_view(p).uid == p.1,
        wire_process_view(p).command == opt_text(p.2),
        wire_process_view(p).used_memory_mb == p.3,
        wire_gres_view(g).index == g.0,
        wire_gres_view(g).name == g.1@,
        wire_gres_view(g).temperature_c == g.2,
        wire_gres_view(g).uuid == opt_text(g.3),
        wire_gres_view(g).memory.used_mb == g.4.0,
        wire_gres_view(g).memory.total_mb == g.4.1,
        wire_gres_view(g).utilization.gres_percent == g.5.0,
        wire_gres_view(g).utilization.memory_percent == g.5.1,
        wire_gres_view(g).processes.len() == g.6@.len(),
        0 <= i < g.6@.len() ==> wire_gres_view(g).processes[i] == wire_process_view(g.6@[i]),
        wire_snapshot_view(w).hostname == w.0@,
        wire_snapshot_view(w).driver_version == opt_text(w.1),
        wire_snapshot_view(w).gres.len() == w.2@.len(),
        0 <= i < w.2@.len() ==> wire_snapshot_view(w).gres[i] == wire_gres_view(w.2@[i]),
{
}

/// What is archived of the part that rarely changes, in this order.
pub proof fn law_archived_metadata(w: WireMetadata, g: WireStatic, i: int)
    ensures
        wire_static_view(g).index == g.0,
        wire_static_view(g).name == g.1@,
        wire_static_view(g).uuid == opt_text(g.2),
        wire_static_view(g).memory_total_mb == g.3,
        wire_metadata_view(w).hostname == w.0@,
        wire_metadata_view(w).driver_version == opt_text(w.1),
        wire_metadata_view(w).gres.len() == w.2@.len(),
        0 <= i < w.2@.len() ==> wire_metadata_view(w).gres[i] == wire_static_view(w.2@[i]),
{
}

/// What is archived of the part that changes, in this order.
pub proof fn law_archived_runtime(w: WireRuntime, g: WireRuntimeGres, p: (u32, u32, u64), i: int)
    ensures
        wire_runtime_process(p).pid == p.0,
        wire_runtime_process(p).uid == p.1,
        wire_runtime_process(p).used_memory_mb == p.2,
        wire_runtime_gres_view(g).index == g.0,
        wire_runtime_gres_view(g).temperature_c == g.1,
        wire_runtime_gres_view(g).memory_used_mb == g.2,
        wire_runtime_gres_view(g).utilization.gres_percent == g.3.0,
        wire_runtime_gres_view(g).utilization.memory_percent == g.3.1,
        wire_runtime_gres_view(g).processes.len() == g.4@.len(),
        0 <= i < g.4@.len() ==> wire_runtime_gres_view(g).processes[i] == wire_runtime_process(
            g.4@[i],
        ),
        wire_runtime_view(w).metadata_hash == w.0,
        wire_runtime_view(w).gres.len() == w.1@.len(),
        0 <= i < w.1@.len() ==> wire_runtime_view(w).gres[i] == wire_runtime_gres_view(w.1@[i]),
{
}

/// An archive of up to 65535 bytes is handed out as it is, a longer one is refused
/// with its length, and where there is none that is said.
pub proof fn law_payload_sizes(
    r: Result<Vec<u8>, PayloadEncodeError>,
    archive: Option<Seq<u8>>,
)
    requires
        is_payload(r, archive),
    ensures
        archive is None ==> r is Err && r->Err_0 is SerializeFailed,
        archive matches Some(a) ==> a.len() <= 65535 ==> r is Ok && r->Ok_0@ == a,
        archive matches Some(a) ==> a.len() > 65535 ==> r is Err && (
        r->Err_0 matches PayloadEncodeError::PayloadTooLarge { len, max } && len == a.len() && max
            == 65535),
{
}

/// An empty payload holds nothing; any other is read as the archive that it is.
pub proof fn law_payload_is_the_archive(p: Seq<u8>)
    requires
        p.len() <= 65535,
    ensures
        p.len() == 0 ==> snapshot_in(p) is None && metadata_in(p) is None && runtime_in(p) is None,
        p.len() > 0 ==> snapshot_in(p) == snapshot_unarchived(p),
        p.len() > 0 ==> metadata_in(p) == metadata_unarchived(p),
        p.len() > 0 ==> runtime_in(p) == runtime_unarchived(p),
{
}

/// A stamped payload is eight bytes longer, the time first.
pub proof fn law_stamp_stands_first(timestamp_ms: i64, archived: Seq<u8>)
    ensures
        stamped(timestamp_ms, archived).len() == archived.len() + 8,
        stamped(timestamp_ms, archived).take(8) == be_bytes((timestamp_ms as u64) as nat, 8),
        stamped(timestamp_ms, archived).skip(8) == archived,
{
    lemma_be_bytes_len((timestamp_ms as u64) as nat, 8);
    let s = stamped(timestamp_ms, archived);
    assert(s.take(8) =~= be_bytes((timestamp_ms as u64) as nat, 8));
    assert(s.skip(8) =~= archived);
}

// ---------------------------------------------------------------------------
// Room

/// The room that a snapshot takes counts every text in it: one more process takes its
/// command and 64 bytes, one more resource its name, its identifier, its processes and 128
/// bytes, and the node its name, its driver and 128 bytes.
pub proof fn law_room_of_a_snapshot(
    processes: Seq<ProcessView>,
    p: ProcessView,
    gres: Seq<GresView>,
    g: GresView,
    s: SnapshotView,
)
    ensures
        opt_room(None) == 0,
        p.command is Some ==> opt_room(p.command) == encode_utf8(p.command->0).len(),
        processes_room(Seq::empty()) == 0,
        processes_room(processes.push(p)) == processes_room(processes) + 64 + opt_room(p.command),
        gres_room(Seq::empty()) == 0,
        gres_room(gres.push(g)) == gres_room(gres) + 128 + encode_utf8(g.name).len() + opt_room(
            g.uuid,
        ) + processes_room(g.processes),
        snapshot_room(s) == gres_room(s.gres) + 128 + encode_utf8(s.hostname).len() + opt_room(
            s.driver_version,
        ),
{
    assert(processes.push(p).drop_last() =~= processes);
    assert(gres.push(g).drop_last() =~= gres);
}

/// The same of its two parts.
pub proof fn law_room_of_the_parts(
    statics: Seq<StaticView>,
    g: StaticView,
    m: MetadataView,
    runtimes: Seq<RuntimeGresView>,
    h: RuntimeGresView,
    r: RuntimeView,
)
    ensures
        statics_room(Seq::empty()) == 0,
        statics_room(statics.push(g)) == statics_room(statics) + 128 + encode_utf8(g.name).len()
            + opt_room(g.uuid),
        metadata_room(m) == statics_room(m.gres) + 128 + encode_utf8(m.hostname).len() + opt_room(
            m.driver_version,
        ),
        runtimes_room(Seq::empty()) == 0,
        runtimes_room(runtimes.push(h)) == runtimes_room(runtimes) + 128 + 32 * h.processes.len(),
        runtime_room(r) == runtimes_room(r.gres) + 128,
{
    assert(statics.push(g).drop_last() =~= statics);
    assert(runtimes.push(h).drop_last() =~= runtimes);
}

/// A value fits where its room is below 2 GiB.
pub proof fn law_what_fits(
    s: &ServerGresSnapshot,
    m: &HostMetadata,
    r: &RuntimeSnapshot,
    a: bool,
    b: bool,
    c: bool,
)
    requires
        call_ensures(snapshot_fits, (s,), a),
        call_ensures(metadata_fits, (m,), b),
        call_ensures(runtime_fits, (r,), c),
    ensures
        a <==> snapshot_room(s@) < 0x8000_0000,
        b <==> metadata_room(m@) < 0x8000_0000,
        c <==> runtime_room(r@) < 0x8000_0000,
{
}

/// The type of a frame by its number; a number that is none is refused.
pub proof fn law_frame_type_by_number(code: u8)
    ensures
        FrameType::spec_of_code(code) matches Some(t) ==> t.spec_code() == code,
        FrameType::spec_of_code(code) is None <==> code == 0 || code > 11,
        <FrameType as vstd::std_specs::convert::TryFromSpec<u8>>::try_from_spec(code) == (
        match FrameType::spec_of_code(code) {
            Some(t) => Ok::<FrameType, FrameHeaderError>(t),
            None => Err(FrameHeaderError::UnknownFrameType(code)),
        }),
{
}

} // verus!
