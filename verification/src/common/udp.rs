//! Frames over datagrams: a frame is cut into chunks, each of which travels in
//! a datagram of its own with the checksums of its two neighbours, and is put
//! together again from the chunks in whatever order they come.

use vstd::prelude::*;
use crate::bytes::{be_bytes, be_value, bytes_equal, copy_bytes, push_be, push_bytes, read_be};
use crate::bytes::{law_be_value_of_be_bytes, lemma_be_bytes_len, lemma_byte_capacities};
use crate::common::crc::{
    checksum, checksum_of_two, crc32, differ_at, law_changed_byte_changes_the_checksum,
};
use crate::common::frame::{
    decode_frame, frame_bytes, law_frame_reads_back, lemma_header_bytes, spec_decode_frame,
    FrameDecodeError, FrameHeader, FrameType, FRAME_HEADER_LEN, PROTOCOL_VERSION,
};
use crate::text::{parse_unsigned, same, split_words, texts, trim, trimmed, unsigned_value, words};

verus! {

/// The first four bytes of every datagram: ASCII `G4U1`.
pub const UDP_CHUNK_MAGIC: [u8; 4] = [0x47, 0x34, 0x55, 0x31];

/// The length of a chunk header in bytes.
pub const UDP_CHUNK_HEADER_LEN: usize = 32;

/// The link size assumed where none is configured or found.
pub const UDP_FALLBACK_MTU: usize = 1200;

/// The least room for the payload of a chunk.
pub const UDP_MIN_PAYLOAD: usize = 256;

/// The header of a chunk.
#[derive(Debug, Clone, Copy, PartialEq, Eq, Structural)]
pub struct UdpChunkHeader {
    pub version: u8,
    pub frame_type: FrameType,
    pub request_id: u64,
    pub frame_len: u32,
    pub chunk_id: u16,
    pub total_chunks: u16,
    pub payload_len: u16,
    pub prev_checksum: u32,
    pub next_checksum: u32,
}

/// Why a frame cannot be cut, or datagrams make up no frame.
#[derive(Debug, Clone, PartialEq, Eq, Structural)]
pub enum UdpChunkError {
    EmptyFrame,
    PayloadTooSmall { got: usize, min: usize },
    PayloadTooLarge { len: usize, max: usize },
    TooManyChunks { chunks: usize },
    FrameTooLarge { len: usize },
    ShortDatagram { got: usize, min: usize },
    BadMagic,
    VersionMismatch { expected: u8, got: u8 },
    UnknownFrameType(u8),
    InvalidChunkLayout,
    PayloadLengthMismatch { expected: usize, actual: usize },
    MetadataMismatch,
    ChecksumMismatch,
    Frame(FrameDecodeError),
}

// ---------------------------------------------------------------------------
// Chunk headers

impl UdpChunkHeader {
    /// The bytes of a chunk header.
    pub open spec fn spec_bytes(self) -> Seq<u8> {
        UDP_CHUNK_MAGIC@ + seq![self.version, self.frame_type.spec_code()] + be_bytes(
            self.request_id as nat,
            8,
        ) + be_bytes(self.frame_len as nat, 4) + be_bytes(self.chunk_id as nat, 2) + be_bytes(
            self.total_chunks as nat,
            2,
        ) + be_bytes(self.payload_len as nat, 2) + be_bytes(self.prev_checksum as nat, 4)
            + be_bytes(self.next_checksum as nat, 4)
    }

    /// The chunk header at the front of a datagram, without regard to whether
    /// it fits the datagram.
    pub open spec fn spec_fields(input: Seq<u8>) -> UdpChunkHeader {
        UdpChunkHeader {
            version: input[4],
            frame_type: FrameType::spec_of_code(input[5])->0,
            request_id: be_value(input.subrange(6, 14)) as u64,
            frame_len: be_value(input.subrange(14, 18)) as u32,
            chunk_id: be_value(input.subrange(18, 20)) as u16,
            total_chunks: be_value(input.subrange(20, 22)) as u16,
            payload_len: be_value(input.subrange(22, 24)) as u16,
            prev_checksum: be_value(input.subrange(24, 28)) as u32,
            next_checksum: be_value(input.subrange(28, 32)) as u32,
        }
    }

    /// The header of a datagram, or why the datagram is refused.
    pub open spec fn spec_decode(input: Seq<u8>) -> Result<UdpChunkHeader, UdpChunkError> {
        let header = UdpChunkHeader::spec_fields(input);
        if input.len() < UDP_CHUNK_HEADER_LEN {
            Err(
                UdpChunkError::ShortDatagram {
                    got: input.len() as usize,
                    min: UDP_CHUNK_HEADER_LEN,
                },
            )
        } else if input.subrange(0, 4) != UDP_CHUNK_MAGIC@ {
            Err(UdpChunkError::BadMagic)
        } else if input[4] != PROTOCOL_VERSION {
            Err(UdpChunkError::VersionMismatch { expected: PROTOCOL_VERSION, got: input[4] })
        } else if FrameType::spec_of_code(input[5]) is None {
            Err(UdpChunkError::UnknownFrameType(input[5]))
        } else if header.total_chunks == 0 || header.chunk_id >= header.total_chunks {
            Err(UdpChunkError::InvalidChunkLayout)
        } else if input.len() != UDP_CHUNK_HEADER_LEN + header.payload_len {
            Err(
                UdpChunkError::PayloadLengthMismatch {
                    expected: header.payload_len as usize,
                    actual: (input.len() - UDP_CHUNK_HEADER_LEN) as usize,
                },
            )
        } else {
            Ok(header)
        }
    }

    /// The bytes of this header.
    pub fn encode(self) -> (r: [u8; 32])
        ensures
            r@ == self.spec_bytes(),
    {
        let mut bytes: Vec<u8> = Vec::new();
        push_bytes(&mut bytes, &UDP_CHUNK_MAGIC);
        bytes.push(self.version);
        bytes.push(self.frame_type.code());
        push_be(&mut bytes, self.request_id, 8);
        push_be(&mut bytes, self.frame_len as u64, 4);
        push_be(&mut bytes, self.chunk_id as u64, 2);
        push_be(&mut bytes, self.total_chunks as u64, 2);
        push_be(&mut bytes, self.payload_len as u64, 2);
        push_be(&mut bytes, self.prev_checksum as u64, 4);
        push_be(&mut bytes, self.next_checksum as u64, 4);
        proof {
            lemma_chunk_header_bytes(self);
            assert(bytes@ =~= self.spec_bytes());
        }
        let mut out: [u8; 32] = [0u8; 32];
        let mut i: usize = 0;
        while i < UDP_CHUNK_HEADER_LEN
            invariant
                i <= UDP_CHUNK_HEADER_LEN,
                bytes@.len() == UDP_CHUNK_HEADER_LEN,
                out@.len() == UDP_CHUNK_HEADER_LEN,
                forall|j: int| 0 <= j < i ==> out@[j] == bytes@[j],
            decreases UDP_CHUNK_HEADER_LEN - i,
        {
            out[i] = bytes[i];
            i = i + 1;
        }
        assert(out@ =~= bytes@);
        out
    }

    /// Reads the header of a datagram and holds it against the datagram.
    pub fn decode(input: &[u8]) -> (r: Result<UdpChunkHeader, UdpChunkError>)
        ensures
            r == UdpChunkHeader::spec_decode(input@),
    {
        if input.len() < UDP_CHUNK_HEADER_LEN {
            return Err(
                UdpChunkError::ShortDatagram { got: input.len(), min: UDP_CHUNK_HEADER_LEN },
            );
        }
        if !bytes_equal(&input[0..4], &UDP_CHUNK_MAGIC) {
            return Err(UdpChunkError::BadMagic);
        }
        let version: u8 = input[4];
        if version != PROTOCOL_VERSION {
            return Err(UdpChunkError::VersionMismatch { expected: PROTOCOL_VERSION, got: version });
        }
        let frame_type = match FrameType::try_from(input[5]) {
            Ok(t) => t,
            Err(_) => {
                return Err(UdpChunkError::UnknownFrameType(input[5]));
            },
        };
        proof {
            lemma_byte_capacities();
        }
        let request_id: u64 = read_be(input, 6, 8);
        let frame_len: u32 = read_be(input, 14, 4) as u32;
        let chunk_id: u16 = read_be(input, 18, 2) as u16;
        let total_chunks: u16 = read_be(input, 20, 2) as u16;
        let payload_len: u16 = read_be(input, 22, 2) as u16;
        let prev_checksum: u32 = read_be(input, 24, 4) as u32;
        let next_checksum: u32 = read_be(input, 28, 4) as u32;
        if total_chunks == 0 {
            return Err(UdpChunkError::InvalidChunkLayout);
        }
        if chunk_id >= total_chunks {
            return Err(UdpChunkError::InvalidChunkLayout);
        }
        if input.len() != UDP_CHUNK_HEADER_LEN + payload_len as usize {
            return Err(
                UdpChunkError::PayloadLengthMismatch {
                    expected: payload_len as usize,
                    actual: input.len() - UDP_CHUNK_HEADER_LEN,
                },
            );
        }
        Ok(
            UdpChunkHeader {
                version,
                frame_type,
                request_id,
                frame_len,
                chunk_id,
                total_chunks,
                payload_len,
                prev_checksum,
                next_checksum,
            },
        )
    }
}

pub proof fn lemma_chunk_header_bytes(header: UdpChunkHeader)
    ensures
        ({
            let b = header.spec_bytes();
            &&& b.len() == UDP_CHUNK_HEADER_LEN
            &&& b.subrange(0, 4) == UDP_CHUNK_MAGIC@
            &&& b[4] == header.version
            &&& b[5] == header.frame_type.spec_code()
            &&& b.subrange(6, 14) == be_bytes(header.request_id as nat, 8)
            &&& b.subrange(14, 18) == be_bytes(header.frame_len as nat, 4)
            &&& b.subrange(18, 20) == be_bytes(header.chunk_id as nat, 2)
            &&& b.subrange(20, 22) == be_bytes(header.total_chunks as nat, 2)
            &&& b.subrange(22, 24) == be_bytes(header.payload_len as nat, 2)
            &&& b.subrange(24, 28) == be_bytes(header.prev_checksum as nat, 4)
            &&& b.subrange(28, 32) == be_bytes(header.next_checksum as nat, 4)
        }),
{
    lemma_be_bytes_len(header.request_id as nat, 8);
    lemma_be_bytes_len(header.frame_len as nat, 4);
    lemma_be_bytes_len(header.chunk_id as nat, 2);
    lemma_be_bytes_len(header.total_chunks as nat, 2);
    lemma_be_bytes_len(header.payload_len as nat, 2);
    lemma_be_bytes_len(header.prev_checksum as nat, 4);
    lemma_be_bytes_len(header.next_checksum as nat, 4);
    let b = header.spec_bytes();
    assert(b.subrange(0, 4) =~= UDP_CHUNK_MAGIC@);
    assert(b.subrange(6, 14) =~= be_bytes(header.request_id as nat, 8));
    assert(b.subrange(14, 18) =~= be_bytes(header.frame_len as nat, 4));
    assert(b.subrange(18, 20) =~= be_bytes(header.chunk_id as nat, 2));
    assert(b.subrange(20, 22) =~= be_bytes(header.total_chunks as nat, 2));
    assert(b.subrange(22, 24) =~= be_bytes(header.payload_len as nat, 2));
    assert(b.subrange(24, 28) =~= be_bytes(header.prev_checksum as nat, 4));
    assert(b.subrange(28, 32) =~= be_bytes(header.next_checksum as nat, 4));
}

/// A chunk header that was written, with a payload of the announced length
/// behind it, reads back unchanged.
pub proof fn law_chunk_header_reads_back(header: UdpChunkHeader, payload: Seq<u8>)
    requires
        header.version == PROTOCOL_VERSION,
        header.chunk_id < header.total_chunks,
        header.payload_len == payload.len(),
    ensures
        UdpChunkHeader::spec_decode(header.spec_bytes() + payload) == Ok::<
            UdpChunkHeader,
            UdpChunkError,
        >(header),
{
    lemma_chunk_header_bytes(header);
    lemma_byte_capacities();
    law_be_value_of_be_bytes(header.request_id as nat, 8);
    law_be_value_of_be_bytes(header.frame_len as nat, 4);
    law_be_value_of_be_bytes(header.chunk_id as nat, 2);
    law_be_value_of_be_bytes(header.total_chunks as nat, 2);
    law_be_value_of_be_bytes(header.payload_len as nat, 2);
    law_be_value_of_be_bytes(header.prev_checksum as nat, 4);
    law_be_value_of_be_bytes(header.next_checksum as nat, 4);
    let b = header.spec_bytes();
    let input = b + payload;
    assert(input.subrange(0, 4) =~= b.subrange(0, 4));
    assert(input.subrange(6, 14) =~= b.subrange(6, 14));
    assert(input.subrange(14, 18) =~= b.subrange(14, 18));
    assert(input.subrange(18, 20) =~= b.subrange(18, 20));
    assert(input.subrange(20, 22) =~= b.subrange(20, 22));
    assert(input.subrange(22, 24) =~= b.subrange(22, 24));
    assert(input.subrange(24, 28) =~= b.subrange(24, 28));
    assert(input.subrange(28, 32) =~= b.subrange(28, 32));
}

// ---------------------------------------------------------------------------
// Cutting

/// How many chunks of at most `max_payload` bytes a frame of `len` bytes takes.
pub open spec fn chunk_count(len: nat, max_payload: nat) -> nat {
    if len == 0 {
        0
    } else {
        ((len - 1) / max_payload as int + 1) as nat
    }
}

/// The end of chunk `i`.
pub open spec fn chunk_end(len: nat, max_payload: nat, i: int) -> int {
    if (i + 1) * max_payload <= len {
        (i + 1) * max_payload
    } else {
        len as int
    }
}

/// Chunk `i` of a frame.
pub open spec fn chunk(frame: Seq<u8>, max_payload: nat, i: int) -> Seq<u8> {
    frame.subrange(i * max_payload, chunk_end(frame.len(), max_payload, i))
}

/// The chunk before chunk `i`; the last before the first.
pub open spec fn prev_index(i: int, total: int) -> int {
    if i == 0 {
        total - 1
    } else {
        i - 1
    }
}

/// The chunk after chunk `i`; the first after the last.
pub open spec fn next_index(i: int, total: int) -> int {
    if i + 1 == total {
        0
    } else {
        i + 1
    }
}

/// The header of chunk `i` of a frame.
pub open spec fn chunk_header(
    frame: Seq<u8>,
    header: FrameHeader,
    max_payload: nat,
    i: int,
) -> UdpChunkHeader {
    let total = chunk_count(frame.len(), max_payload) as int;
    UdpChunkHeader {
        version: PROTOCOL_VERSION,
        frame_type: header.frame_type,
        request_id: header.request_id,
        frame_len: frame.len() as u32,
        chunk_id: i as u16,
        total_chunks: total as u16,
        payload_len: chunk(frame, max_payload, i).len() as u16,
        prev_checksum: crc32(chunk(frame, max_payload, prev_index(i, total))),
        next_checksum: crc32(chunk(frame, max_payload, next_index(i, total))),
    }
}

/// The datagram that carries chunk `i` of a frame.
pub open spec fn chunk_datagram(
    frame: Seq<u8>,
    header: FrameHeader,
    max_payload: nat,
    i: int,
) -> Seq<u8> {
    chunk_header(frame, header, max_payload, i).spec_bytes() + chunk(frame, max_payload, i)
}

/// Why a frame cannot be cut into chunks of at most `max_payload` bytes.
pub open spec fn cutting_fault(frame: Seq<u8>, max_payload: nat) -> Option<UdpChunkError> {
    if frame.len() == 0 {
        Some(UdpChunkError::EmptyFrame)
    } else if max_payload < UDP_MIN_PAYLOAD {
        Some(UdpChunkError::PayloadTooSmall { got: max_payload as usize, min: UDP_MIN_PAYLOAD })
    } else if let Err(e) = spec_decode_frame(frame) {
        Some(UdpChunkError::Frame(e))
    } else if frame.len() > u32::MAX {
        Some(UdpChunkError::FrameTooLarge { len: frame.len() as usize })
    } else if chunk_count(frame.len(), max_payload) > u16::MAX {
        Some(UdpChunkError::TooManyChunks { chunks: chunk_count(frame.len(), max_payload) as usize })
    } else {
        None
    }
}

pub proof fn lemma_chunk_bounds(len: nat, m: nat, i: int)
    requires
        m > 0,
        len > 0,
        0 <= i < chunk_count(len, m),
    ensures
        0 <= i * m < chunk_end(len, m, i) <= len,
        chunk_end(len, m, i) - i * m <= m,
        chunk_count(len, m) <= len,
        i + 1 < chunk_count(len, m) ==> chunk_end(len, m, i) == (i + 1) * m,
        i + 1 == chunk_count(len, m) ==> chunk_end(len, m, i) == len,
{
    let q = (len - 1) / m as int;
    assert(m * q <= len - 1 < m * q + m) by (nonlinear_arith)
        requires
            q == (len - 1) / m as int,
            m > 0,
            len > 0,
    ;
    assert(i * m <= q * m) by (nonlinear_arith)
        requires
            i <= q,
            m > 0,
    ;
    assert(0 <= i * m) by (nonlinear_arith)
        requires
            0 <= i,
            m > 0,
    ;
    assert((i + 1) * m == i * m + m) by (nonlinear_arith);
    assert(q * m == m * q) by (nonlinear_arith);
    assert(0 <= q <= len - 1) by (nonlinear_arith)
        requires
            0 <= m * q <= len - 1 || q <= 0,
            m > 0,
            m * q <= len - 1,
            len - 1 < m * q + m,
            len > 0,
    ;
    if i + 1 <= q {
        assert((i + 1) * m <= q * m) by (nonlinear_arith)
            requires
                i + 1 <= q,
                m > 0,
        ;
    } else {
        assert(i == q);
    }
}

/// The checksums of the chunks of a frame.
fn chunk_checksums(frame: &[u8], max_payload: usize, total: usize) -> (r: Vec<u32>)
    requires
        frame@.len() > 0,
        max_payload > 0,
        total == chunk_count(frame@.len(), max_payload as nat),
    ensures
        r@.len() == total,
        forall|i: int|
            0 <= i < total ==> #[trigger] r@[i] == crc32(chunk(frame@, max_payload as nat, i)),
{
    let mut out: Vec<u32> = Vec::new();
    let mut i: usize = 0;
    while i < total
        invariant
            i <= total == chunk_count(frame@.len(), max_payload as nat),
            frame@.len() > 0,
            max_payload > 0,
            out@.len() == i,
            forall|j: int|
                0 <= j < i ==> #[trigger] out@[j] == crc32(chunk(frame@, max_payload as nat, j)),
        decreases total - i,
    {
        let payload = chunk_of(frame, max_payload, total, i);
        out.push(checksum(payload));
        i = i + 1;
    }
    out
}

fn chunk_of(frame: &[u8], max_payload: usize, total: usize, i: usize) -> (r: &[u8])
    requires
        frame@.len() > 0,
        max_payload > 0,
        total == chunk_count(frame@.len(), max_payload as nat),
        i < total,
    ensures
        r@ == chunk(frame@, max_payload as nat, i as int),
        0 < r@.len() <= max_payload,
{
    let len: usize = frame.len();
    proof {
        lemma_chunk_bounds(len as nat, max_payload as nat, i as int);
    }
    let from: usize = i * max_payload;
    let to: usize = if i + 1 < total {
        assert((i + 1) * max_payload == i * max_payload + max_payload) by (nonlinear_arith);
        from + max_payload
    } else {
        len
    };
    &frame[from..to]
}

/// Cuts a frame into chunks of at most `max_payload` bytes: the datagrams, in
/// the order of the chunks.
pub fn encode_udp_chunks(frame: &[u8], max_payload: usize) -> (r: Result<
    Vec<Vec<u8>>,
    UdpChunkError,
>)
    ensures
        match r {
            Ok(datagrams) => {
                &&& cutting_fault(frame@, max_payload as nat) is None
                &&& datagrams@.len() == chunk_count(frame@.len(), max_payload as nat)
                &&& forall|i: int|
                    0 <= i < datagrams@.len() ==> (#[trigger] datagrams@[i])@ == chunk_datagram(
                        frame@,
                        spec_decode_frame(frame@)->Ok_0.0,
                        max_payload as nat,
                        i,
                    )
            },
            Err(e) => cutting_fault(frame@, max_payload as nat) == Some(e),
        },
{
    if frame.len() == 0 {
        return Err(UdpChunkError::EmptyFrame);
    }
    if max_payload < UDP_MIN_PAYLOAD {
        return Err(UdpChunkError::PayloadTooSmall { got: max_payload, min: UDP_MIN_PAYLOAD });
    }
    let frame_header = match decode_frame(frame) {
        Ok((h, _)) => h,
        Err(e) => {
            return Err(UdpChunkError::Frame(e));
        },
    };
    let len: usize = frame.len();
    if len as u64 > u32::MAX as u64 {
        return Err(UdpChunkError::FrameTooLarge { len });
    }
    let frame_len: u32 = len as u32;
    proof {
        lemma_chunk_bounds(len as nat, max_payload as nat, 0);
    }
    let total: usize = (len - 1) / max_payload + 1;
    if total > u16::MAX as usize {
        return Err(UdpChunkError::TooManyChunks { chunks: total });
    }
    let checksums = chunk_checksums(frame, max_payload, total);
    let mut out: Vec<Vec<u8>> = Vec::new();
    let mut i: usize = 0;
    while i < total
        invariant
            i <= total <= u16::MAX,
            total == chunk_count(frame@.len(), max_payload as nat),
            frame@.len() > 0,
            frame_len == frame@.len(),
            max_payload > 0,
            checksums@.len() == total,
            forall|j: int|
                0 <= j < total ==> #[trigger] checksums@[j] == crc32(
                    chunk(frame@, max_payload as nat, j),
                ),
            out@.len() == i,
            forall|j: int|
                0 <= j < i ==> (#[trigger] out@[j])@ == chunk_datagram(
                    frame@,
                    frame_header,
                    max_payload as nat,
                    j,
                ),
        decreases total - i,
    {
        let payload = chunk_of(frame, max_payload, total, i);
        let prev: usize = if i == 0 {
            total - 1
        } else {
            i - 1
        };
        let next: usize = if i + 1 == total {
            0
        } else {
            i + 1
        };
        let header = UdpChunkHeader {
            version: PROTOCOL_VERSION,
            frame_type: frame_header.frame_type,
            request_id: frame_header.request_id,
            frame_len,
            chunk_id: i as u16,
            total_chunks: total as u16,
            payload_len: payload.len() as u16,
            prev_checksum: checksums[prev],
            next_checksum: checksums[next],
        };
        assert(header == chunk_header(frame@, frame_header, max_payload as nat, i as int));
        let head = header.encode();
        let mut datagram: Vec<u8> = Vec::new();
        push_bytes(&mut datagram, &head);
        push_bytes(&mut datagram, payload);
        assert(datagram@ =~= chunk_datagram(
            frame@,
            frame_header,
            max_payload as nat,
            i as int,
        ));
        out.push(datagram);
        i = i + 1;
    }
    Ok(out)
}

/// The datagram that carries a whole frame.
pub open spec fn single_datagram(frame: Seq<u8>, header: FrameHeader) -> Seq<u8> {
    (UdpChunkHeader {
        version: PROTOCOL_VERSION,
        frame_type: header.frame_type,
        request_id: header.request_id,
        frame_len: frame.len() as u32,
        chunk_id: 0,
        total_chunks: 1,
        payload_len: frame.len() as u16,
        prev_checksum: crc32(frame),
        next_checksum: crc32(frame),
    }).spec_bytes() + frame
}

/// The datagram that carries a whole frame, or why there is none.
pub open spec fn spec_encode_single(frame: Seq<u8>) -> Result<Seq<u8>, UdpChunkError> {
    if frame.len() == 0 {
        Err(UdpChunkError::EmptyFrame)
    } else if frame.len() > u16::MAX {
        Err(UdpChunkError::PayloadTooLarge { len: frame.len() as usize, max: u16::MAX as usize })
    } else {
        match spec_decode_frame(frame) {
            Err(e) => Err(UdpChunkError::Frame(e)),
            Ok((header, _)) => Ok(single_datagram(frame, header)),
        }
    }
}

/// Puts a whole frame in one datagram.
pub fn encode_udp_single_chunk(frame: &[u8]) -> (r: Result<Vec<u8>, UdpChunkError>)
    ensures
        match r {
            Ok(d) => spec_encode_single(frame@) == Ok::<Seq<u8>, UdpChunkError>(d@),
            Err(e) => spec_encode_single(frame@) == Err::<Seq<u8>, UdpChunkError>(e),
        },
{
    if frame.len() == 0 {
        return Err(UdpChunkError::EmptyFrame);
    }
    if frame.len() > u16::MAX as usize {
        return Err(UdpChunkError::PayloadTooLarge { len: frame.len(), max: u16::MAX as usize });
    }
    let frame_header = match decode_frame(frame) {
        Ok((h, _)) => h,
        Err(e) => {
            return Err(UdpChunkError::Frame(e));
        },
    };
    let sum: u32 = checksum(frame);
    let header = UdpChunkHeader {
        version: PROTOCOL_VERSION,
        frame_type: frame_header.frame_type,
        request_id: frame_header.request_id,
        frame_len: frame.len() as u32,
        chunk_id: 0,
        total_chunks: 1,
        payload_len: frame.len() as u16,
        prev_checksum: sum,
        next_checksum: sum,
    };
    let head = header.encode();
    let mut datagram: Vec<u8> = Vec::new();
    push_bytes(&mut datagram, &head);
    push_bytes(&mut datagram, frame);
    assert(datagram@ =~= single_datagram(frame@, frame_header));
    Ok(datagram)
}

/// The datagram for a frame that is given by its parts, or why there is none.
pub open spec fn spec_encode_parts(
    frame_type: FrameType,
    request_id: u64,
    payload: Seq<u8>,
) -> Result<Seq<u8>, UdpChunkError> {
    let header = FrameHeader {
        version: PROTOCOL_VERSION,
        frame_type,
        request_id,
        payload_len: payload.len() as u32,
    };
    let len = payload.len() + FRAME_HEADER_LEN;
    if payload.len() > u32::MAX {
        Err(UdpChunkError::FrameTooLarge { len: len as usize })
    } else if len > u16::MAX {
        Err(UdpChunkError::PayloadTooLarge { len: len as usize, max: u16::MAX as usize })
    } else {
        Ok(single_datagram(frame_bytes(header, payload), header))
    }
}

/// Puts a frame, given by its parts, in one datagram without building it
/// first. A payload near the size of the address space is left out: its
/// length plus a header would not be a number of the machine.
pub fn encode_udp_single_chunk_from_parts(
    frame_type: FrameType,
    request_id: u64,
    payload: &[u8],
) -> (r: Result<Vec<u8>, UdpChunkError>)
    requires
        payload@.len() <= usize::MAX - FRAME_HEADER_LEN,
    ensures
        match r {
            Ok(d) => spec_encode_parts(frame_type, request_id, payload@) == Ok::<
                Seq<u8>,
                UdpChunkError,
            >(d@),
            Err(e) => spec_encode_parts(frame_type, request_id, payload@) == Err::<
                Seq<u8>,
                UdpChunkError,
            >(e),
        },
{
    let len: usize = payload.len();
    let frame_len: usize = FRAME_HEADER_LEN + len;
    if len as u64 > u32::MAX as u64 {
        return Err(UdpChunkError::FrameTooLarge { len: frame_len });
    }
    if frame_len > u16::MAX as usize {
        return Err(UdpChunkError::PayloadTooLarge { len: frame_len, max: u16::MAX as usize });
    }
    let inner = FrameHeader::new(frame_type, request_id, len as u32);
    let frame_header = inner.encode();
    proof {
        lemma_header_bytes(inner);
        assert(inner.with_len(payload@.len()) == inner);
        assert(frame_header@ + payload@ =~= frame_bytes(inner, payload@));
    }
    let sum: u32 = checksum_of_two(&frame_header, payload);
    let header = UdpChunkHeader {
        version: PROTOCOL_VERSION,
        frame_type,
        request_id,
        frame_len: frame_len as u32,
        chunk_id: 0,
        total_chunks: 1,
        payload_len: frame_len as u16,
        prev_checksum: sum,
        next_checksum: sum,
    };
    let head = header.encode();
    let mut datagram: Vec<u8> = Vec::new();
    push_bytes(&mut datagram, &head);
    push_bytes(&mut datagram, &frame_header);
    push_bytes(&mut datagram, payload);
    assert(datagram@ =~= single_datagram(frame_bytes(inner, payload@), inner));
    Ok(datagram)
}

/// The frame in a datagram that carries a whole one; nothing if the datagram
/// carries one chunk of several; or why it is refused.
pub open spec fn spec_decode_single(datagram: Seq<u8>) -> Result<Option<Seq<u8>>, UdpChunkError> {
    match UdpChunkHeader::spec_decode(datagram) {
        Err(e) => Err(e),
        Ok(header) => {
            let frame = datagram.skip(UDP_CHUNK_HEADER_LEN as int);
            if header.total_chunks != 1 {
                Ok(None)
            } else if header.prev_checksum != crc32(frame) || header.next_checksum != crc32(frame) {
                Err(UdpChunkError::ChecksumMismatch)
            } else {
                match spec_decode_frame(frame) {
                    Err(e) => Err(UdpChunkError::Frame(e)),
                    Ok((h, _)) => if h.frame_type != header.frame_type || h.request_id
                        != header.request_id {
                        Err(UdpChunkError::MetadataMismatch)
                    } else {
                        Ok(Some(frame))
                    },
                }
            }
        },
    }
}

/// The frame in a datagram that carries a whole one.
pub fn decode_udp_single_chunk_ref(datagram: &[u8]) -> (r: Result<Option<&[u8]>, UdpChunkError>)
    ensures
        match r {
            Ok(Some(frame)) => spec_decode_single(datagram@) == Ok::<
                Option<Seq<u8>>,
                UdpChunkError,
            >(Some(frame@)),
            Ok(None) => spec_decode_single(datagram@) == Ok::<Option<Seq<u8>>, UdpChunkError>(None),
            Err(e) => spec_decode_single(datagram@) == Err::<Option<Seq<u8>>, UdpChunkError>(e),
        },
{
    let header = match UdpChunkHeader::decode(datagram) {
        Ok(h) => h,
        Err(e) => {
            return Err(e);
        },
    };
    if header.total_chunks != 1 {
        return Ok(None);
    }
    let frame = &datagram[UDP_CHUNK_HEADER_LEN..datagram.len()];
    assert(frame@ =~= datagram@.skip(UDP_CHUNK_HEADER_LEN as int));
    let sum: u32 = checksum(frame);
    if header.prev_checksum != sum || header.next_checksum != sum {
        return Err(UdpChunkError::ChecksumMismatch);
    }
    match decode_frame(frame) {
        Ok((decoded, _)) => {
            if decoded.frame_type != header.frame_type || decoded.request_id != header.request_id {
                return Err(UdpChunkError::MetadataMismatch);
            }
        },
        Err(e) => {
            return Err(UdpChunkError::Frame(e));
        },
    }
    Ok(Some(frame))
}

/// A copy of the frame in a datagram that carries a whole one.
pub fn decode_udp_single_chunk(datagram: &[u8]) -> (r: Result<Option<Vec<u8>>, UdpChunkError>)
    ensures
        match r {
            Ok(Some(frame)) => spec_decode_single(datagram@) == Ok::<
                Option<Seq<u8>>,
                UdpChunkError,
            >(Some(frame@)),
            Ok(None) => spec_decode_single(datagram@) == Ok::<Option<Seq<u8>>, UdpChunkError>(None),
            Err(e) => spec_decode_single(datagram@) == Err::<Option<Seq<u8>>, UdpChunkError>(e),
        },
{
    match decode_udp_single_chunk_ref(datagram) {
        Ok(Some(frame)) => Ok(Some(copy_bytes(frame))),
        Ok(None) => Ok(None),
        Err(e) => Err(e),
    }
}

// ---------------------------------------------------------------------------
// Room in a datagram

/// The word behind the first `mark` in a list of words.
pub open spec fn word_behind(list: Seq<Seq<char>>, mark: Seq<char>) -> Option<Seq<char>>
    decreases list.len(),
{
    if list.len() < 2 {
        None
    } else if list[0] == mark {
        Some(list[1])
    } else {
        word_behind(list.drop_first(), mark)
    }
}

/// The network device in the output of `ip route get`: the word behind `dev`.
pub fn route_device(output: &str) -> (r: Option<String>)
    ensures
        match r {
            Some(dev) => word_behind(words(output@), "dev"@) == Some(dev@),
            None => word_behind(words(output@), "dev"@) is None,
        },
{
    let list = split_words(output);
    let n: usize = list.len();
    let ghost all = texts(list@);
    let mut i: usize = 0;
    assert(all.skip(0) =~= all);
    while i < n && n - i > 1
        invariant
            i <= n == list@.len(),
            all == texts(list@),
            all == words(output@),
            word_behind(all, "dev"@) == word_behind(all.skip(i as int), "dev"@),
        decreases n - i,
    {
        assert(all.skip(i as int)[0] == list@[i as int]@);
        assert(all.skip(i as int)[1] == list@[i + 1]@);
        if same(list[i].as_str(), "dev") {
            return Some(list[i + 1].clone());
        }
        assert(all.skip(i as int).drop_first() =~= all.skip(i + 1));
        i = i + 1;
    }
    None
}

/// The link size written in the `mtu` file of a network device.
pub fn parse_mtu(raw: &str) -> (r: Option<usize>)
    ensures
        r is Some <==> unsigned_value(trimmed(raw@), usize::MAX as nat) is Some,
        r matches Some(v) ==> unsigned_value(trimmed(raw@), usize::MAX as nat) == Some(v as nat),
{
    match parse_unsigned(trim(raw).as_str(), usize::MAX as u64) {
        Some(v) => Some(v as usize),
        None => None,
    }
}

/// The room for the payload of a chunk on a link of the given size.
pub open spec fn payload_room(ipv4: bool, mtu: int) -> int {
    let overhead: int = (if ipv4 {
        20
    } else {
        40int
    }) + 8 + UDP_CHUNK_HEADER_LEN;
    if mtu - overhead > UDP_MIN_PAYLOAD {
        mtu - overhead
    } else {
        UDP_MIN_PAYLOAD as int
    }
}

/// The room for the payload of a chunk. The configured link size counts where
/// it is not zero, else the one found for the route, else a cautious default.
pub fn effective_udp_payload_capacity(
    ipv4: bool,
    configured_mtu: u16,
    detected_mtu: Option<usize>,
) -> (r: usize)
    ensures
        r == payload_room(
            ipv4,
            if configured_mtu > 0 {
                configured_mtu as int
            } else {
                match detected_mtu {
                    Some(m) => m as int,
                    None => UDP_FALLBACK_MTU as int,
                }
            },
        ),
        r >= UDP_MIN_PAYLOAD,
{
    let mtu: usize = if configured_mtu > 0 {
        configured_mtu as usize
    } else {
        match detected_mtu {
            Some(m) => m,
            None => UDP_FALLBACK_MTU,
        }
    };
    let ip_header: usize = if ipv4 {
        20
    } else {
        40
    };
    let room: usize = mtu.saturating_sub(ip_header + 8 + UDP_CHUNK_HEADER_LEN);
    if room > UDP_MIN_PAYLOAD {
        room
    } else {
        UDP_MIN_PAYLOAD
    }
}

// ---------------------------------------------------------------------------
// Laws

/// A frame put in one datagram comes out of it unchanged.
pub proof fn law_single_chunk_reads_back(frame: Seq<u8>)
    ensures
        spec_encode_single(frame) matches Ok(d) ==> spec_decode_single(d) == Ok::<
            Option<Seq<u8>>,
            UdpChunkError,
        >(Some(frame)),
{
    if let Ok(d) = spec_encode_single(frame) {
        let h = spec_decode_frame(frame)->Ok_0.0;
        let header = UdpChunkHeader {
            version: PROTOCOL_VERSION,
            frame_type: h.frame_type,
            request_id: h.request_id,
            frame_len: frame.len() as u32,
            chunk_id: 0,
            total_chunks: 1,
            payload_len: frame.len() as u16,
            prev_checksum: crc32(frame),
            next_checksum: crc32(frame),
        };
        law_chunk_header_reads_back(header, frame);
        lemma_chunk_header_bytes(header);
        assert(d.skip(UDP_CHUNK_HEADER_LEN as int) =~= frame);
    }
}

/// A datagram that carries a whole frame is refused for its checksum if one byte
/// behind its header is changed.
pub proof fn law_changed_datagram_is_refused(frame: Seq<u8>, datagram: Seq<u8>, k: int)
    requires
        spec_encode_single(frame) is Ok,
        differ_at(spec_encode_single(frame)->Ok_0, datagram, k),
        k >= UDP_CHUNK_HEADER_LEN,
    ensures
        spec_decode_single(datagram) == Err::<Option<Seq<u8>>, UdpChunkError>(
            UdpChunkError::ChecksumMismatch,
        ),
{
    let d = spec_encode_single(frame)->Ok_0;
    let h = spec_decode_frame(frame)->Ok_0.0;
    let header = UdpChunkHeader {
        version: PROTOCOL_VERSION,
        frame_type: h.frame_type,
        request_id: h.request_id,
        frame_len: frame.len() as u32,
        chunk_id: 0,
        total_chunks: 1,
        payload_len: frame.len() as u16,
        prev_checksum: crc32(frame),
        next_checksum: crc32(frame),
    };
    lemma_chunk_header_bytes(header);
    let payload = datagram.skip(UDP_CHUNK_HEADER_LEN as int);
    assert(d == header.spec_bytes() + frame);
    assert forall|j: int| 0 <= j < datagram.len() implies datagram[j] == (header.spec_bytes()
        + payload)[j] by {
        if j < UDP_CHUNK_HEADER_LEN {
            assert(d[j] == datagram[j]);
        }
    }
    assert(datagram =~= header.spec_bytes() + payload);
    law_chunk_header_reads_back(header, payload);
    assert forall|j: int|
        0 <= j < frame.len() && j != k - UDP_CHUNK_HEADER_LEN implies #[trigger] frame[j]
        == payload[j] by {
        assert(d[j + UDP_CHUNK_HEADER_LEN] == datagram[j + UDP_CHUNK_HEADER_LEN]);
    }
    assert(frame[k - UDP_CHUNK_HEADER_LEN] == d[k]);
    law_changed_byte_changes_the_checksum(frame, payload, k - UDP_CHUNK_HEADER_LEN);
}

/// Building a datagram from the parts of a frame is the same as building the
/// frame and putting it in a datagram, for payloads that are too large for one
/// as well, if a frame can hold them.
pub proof fn law_parts_build_the_same_datagram(
    frame_type: FrameType,
    request_id: u64,
    payload: Seq<u8>,
)
    requires
        payload.len() <= u32::MAX,
    ensures
        spec_encode_parts(frame_type, request_id, payload) == spec_encode_single(
            frame_bytes(
                FrameHeader { version: PROTOCOL_VERSION, frame_type, request_id, payload_len: 0 },
                payload,
            ),
        ),
{
    let h0 = FrameHeader { version: PROTOCOL_VERSION, frame_type, request_id, payload_len: 0 };
    let h = FrameHeader { payload_len: payload.len() as u32, ..h0 };
    law_frame_reads_back(h0, payload);
    lemma_header_bytes(h0.with_len(payload.len()));
    assert(frame_bytes(h0, payload) == frame_bytes(h, payload));
}

/// A datagram that was cut from a frame as its only chunk is the datagram
/// that carries the whole frame.
pub proof fn law_one_chunk_is_the_single_datagram(frame: Seq<u8>, max_payload: nat)
    requires
        cutting_fault(frame, max_payload) is None,
        frame.len() <= max_payload,
        frame.len() <= u16::MAX,
    ensures
        chunk_count(frame.len(), max_payload) == 1,
        spec_encode_single(frame) == Ok::<Seq<u8>, UdpChunkError>(
            chunk_datagram(frame, spec_decode_frame(frame)->Ok_0.0, max_payload, 0),
        ),
{
    assert((frame.len() - 1) / max_payload as int == 0) by (nonlinear_arith)
        requires
            0 <= frame.len() - 1 < max_payload,
    ;
    lemma_chunk_bounds(frame.len(), max_payload, 0);
    assert(chunk(frame, max_payload, 0) =~= frame);
}

} // verus!
