//! Binary transport frames: an 18-byte header, then the payload.
//!
//! The header is the magic `G4C1`, the protocol version, the frame type, the
//! request id (8 bytes) and the payload length (4 bytes), big-endian.

use vstd::prelude::*;
use crate::bytes::{be_bytes, be_value, push_be, push_bytes, read_be};
use crate::bytes::{
    law_be_bytes_of_be_value, law_be_value_of_be_bytes, lemma_be_bytes_len, lemma_be_value_bound,
    lemma_byte_capacities,
};

verus! {

/// The version of the protocol that this library speaks.
pub const PROTOCOL_VERSION: u8 = 1;

/// The first four bytes of every frame: ASCII `G4C1`.
pub const FRAME_MAGIC: [u8; 4] = [0x47, 0x34, 0x43, 0x31];

/// The length of a frame header in bytes.
pub const FRAME_HEADER_LEN: usize = 18;

/// What a frame carries.
#[derive(Debug, Clone, Copy, PartialEq, Eq, Structural)]
pub enum FrameType {
    DiscoveryQuery,
    DiscoveryAnnounce,
    HandshakeRequest,
    HandshakeInfo,
    QueryRequest,
    QueryResponse,
    DataPayload,
    Heartbeat,
    Disconnect,
    MetadataPayload,
    RuntimePayload,
}

impl FrameType {
    /// The byte that stands for a frame type on the wire.
    pub open spec fn spec_code(self) -> u8 {
        match self {
            FrameType::DiscoveryQuery => 1,
            FrameType::DiscoveryAnnounce => 2,
            FrameType::HandshakeRequest => 3,
            FrameType::HandshakeInfo => 4,
            FrameType::QueryRequest => 5,
            FrameType::QueryResponse => 6,
            FrameType::DataPayload => 7,
            FrameType::Heartbeat => 8,
            FrameType::Disconnect => 9,
            FrameType::MetadataPayload => 10,
            FrameType::RuntimePayload => 11,
        }
    }

    /// The frame type that a byte stands for.
    pub open spec fn spec_of_code(code: u8) -> Option<FrameType> {
        match code {
            1 => Some(FrameType::DiscoveryQuery),
            2 => Some(FrameType::DiscoveryAnnounce),
            3 => Some(FrameType::HandshakeRequest),
            4 => Some(FrameType::HandshakeInfo),
            5 => Some(FrameType::QueryRequest),
            6 => Some(FrameType::QueryResponse),
            7 => Some(FrameType::DataPayload),
            8 => Some(FrameType::Heartbeat),
            9 => Some(FrameType::Disconnect),
            10 => Some(FrameType::MetadataPayload),
            11 => Some(FrameType::RuntimePayload),
            _ => None,
        }
    }

    /// The byte that stands for this frame type on the wire.
    pub fn code(self) -> (r: u8)
        ensures
            r == self.spec_code(),
    {
        match self {
            FrameType::DiscoveryQuery => 1,
            FrameType::DiscoveryAnnounce => 2,
            FrameType::HandshakeRequest => 3,
            FrameType::HandshakeInfo => 4,
            FrameType::QueryRequest => 5,
            FrameType::QueryResponse => 6,
            FrameType::DataPayload => 7,
            FrameType::Heartbeat => 8,
            FrameType::Disconnect => 9,
            FrameType::MetadataPayload => 10,
            FrameType::RuntimePayload => 11,
        }
    }
}

impl std::convert::TryFrom<u8> for FrameType {
    type Error = FrameHeaderError;

    fn try_from(value: u8) -> (r: Result<FrameType, FrameHeaderError>) {
        match value {
            1 => Ok(FrameType::DiscoveryQuery),
            2 => Ok(FrameType::DiscoveryAnnounce),
            3 => Ok(FrameType::HandshakeRequest),
            4 => Ok(FrameType::HandshakeInfo),
            5 => Ok(FrameType::QueryRequest),
            6 => Ok(FrameType::QueryResponse),
            7 => Ok(FrameType::DataPayload),
            8 => Ok(FrameType::Heartbeat),
            9 => Ok(FrameType::Disconnect),
            10 => Ok(FrameType::MetadataPayload),
            11 => Ok(FrameType::RuntimePayload),
            other => Err(FrameHeaderError::UnknownFrameType(other)),
        }
    }
}

impl vstd::std_specs::convert::TryFromSpecImpl<u8> for FrameType {
    open spec fn obeys_try_from_spec() -> bool {
        true
    }

    open spec fn try_from_spec(value: u8) -> Result<FrameType, FrameHeaderError> {
        match FrameType::spec_of_code(value) {
            Some(t) => Ok(t),
            None => Err(FrameHeaderError::UnknownFrameType(value)),
        }
    }
}

/// The header of a frame.
#[derive(Debug, Clone, Copy, PartialEq, Eq, Structural)]
pub struct FrameHeader {
    pub version: u8,
    pub frame_type: FrameType,
    pub request_id: u64,
    pub payload_len: u32,
}

/// Why bytes are not a frame header.
#[derive(Debug, Clone, Copy, PartialEq, Eq, Structural)]
pub enum FrameHeaderError {
    TooShort { got: usize, min: usize },
    BadMagic,
    VersionMismatch { expected: u8, got: u8 },
    UnknownFrameType(u8),
}

/// Why bytes are not a complete frame.
#[derive(Debug, Clone, Copy, PartialEq, Eq, Structural)]
pub enum FrameDecodeError {
    ShortHeader { got: usize, min: usize },
    BadMagic,
    VersionMismatch { expected: u8, got: u8 },
    UnknownFrameType(u8),
    PayloadLengthMismatch { expected: usize, actual: usize },
}

impl FrameHeader {
    /// The bytes of a header.
    pub open spec fn spec_bytes(self) -> Seq<u8> {
        FRAME_MAGIC@ + seq![self.version, self.frame_type.spec_code()] + be_bytes(
            self.request_id as nat,
            8,
        ) + be_bytes(self.payload_len as nat, 4)
    }

    /// What the first bytes of `input` say, or why they are no header. A
    /// fault is reported in the order of the fields.
    pub open spec fn spec_decode(input: Seq<u8>) -> Result<FrameHeader, FrameHeaderError> {
        if input.len() < FRAME_HEADER_LEN {
            Err(FrameHeaderError::TooShort { got: input.len() as usize, min: FRAME_HEADER_LEN })
        } else if input.subrange(0, 4) != FRAME_MAGIC@ {
            Err(FrameHeaderError::BadMagic)
        } else if input[4] != PROTOCOL_VERSION {
            Err(FrameHeaderError::VersionMismatch { expected: PROTOCOL_VERSION, got: input[4] })
        } else if FrameType::spec_of_code(input[5]) is None {
            Err(FrameHeaderError::UnknownFrameType(input[5]))
        } else {
            Ok(
                FrameHeader {
                    version: input[4],
                    frame_type: FrameType::spec_of_code(input[5])->0,
                    request_id: be_value(input.subrange(6, 14)) as u64,
                    payload_len: be_value(input.subrange(14, 18)) as u32,
                },
            )
        }
    }

    /// This header with another payload length.
    pub open spec fn with_len(self, len: nat) -> FrameHeader {
        FrameHeader { payload_len: len as u32, ..self }
    }

    /// A header of the current protocol version.
    pub fn new(frame_type: FrameType, request_id: u64, payload_len: u32) -> (r: FrameHeader)
        ensures
            r == (FrameHeader { version: PROTOCOL_VERSION, frame_type, request_id, payload_len }),
    {
        FrameHeader { version: PROTOCOL_VERSION, frame_type, request_id, payload_len }
    }

    /// The bytes of this header.
    pub fn encode(self) -> (r: [u8; 18])
        ensures
            r@ == self.spec_bytes(),
    {
        let mut bytes: Vec<u8> = Vec::new();
        push_bytes(&mut bytes, &FRAME_MAGIC);
        bytes.push(self.version);
        bytes.push(self.frame_type.code());
        push_be(&mut bytes, self.request_id, 8);
        push_be(&mut bytes, self.payload_len as u64, 4);
        proof {
            lemma_be_bytes_len(self.request_id as nat, 8);
            lemma_be_bytes_len(self.payload_len as nat, 4);
            assert(bytes@ =~= self.spec_bytes());
        }
        let mut out: [u8; 18] = [0u8; 18];
        let mut i: usize = 0;
        while i < FRAME_HEADER_LEN
            invariant
                i <= FRAME_HEADER_LEN,
                bytes@.len() == FRAME_HEADER_LEN,
                out@.len() == FRAME_HEADER_LEN,
                forall|j: int| 0 <= j < i ==> out@[j] == bytes@[j],
            decreases FRAME_HEADER_LEN - i,
        {
            out[i] = bytes[i];
            i = i + 1;
        }
        assert(out@ =~= bytes@);
        out
    }

    /// Reads the header at the front of `input`.
    pub fn decode(input: &[u8]) -> (r: Result<FrameHeader, FrameHeaderError>)
        ensures
            r == FrameHeader::spec_decode(input@),
    {
        if input.len() < FRAME_HEADER_LEN {
            return Err(FrameHeaderError::TooShort { got: input.len(), min: FRAME_HEADER_LEN });
        }
        if !crate::bytes::bytes_equal(&input[0..4], &FRAME_MAGIC) {
            return Err(FrameHeaderError::BadMagic);
        }
        let version: u8 = input[4];
        if version != PROTOCOL_VERSION {
            return Err(
                FrameHeaderError::VersionMismatch { expected: PROTOCOL_VERSION, got: version },
            );
        }
        let frame_type = match FrameType::try_from(input[5]) {
            Ok(t) => t,
            Err(e) => {
                return Err(e);
            },
        };
        let request_id: u64 = read_be(input, 6, 8);
        let payload_len: u64 = read_be(input, 14, 4);
        proof {
            lemma_byte_capacities();
        }
        Ok(FrameHeader { version, frame_type, request_id, payload_len: payload_len as u32 })
    }
}

/// The frame fault that a header fault is.
pub open spec fn frame_fault(e: FrameHeaderError) -> FrameDecodeError {
    match e {
        FrameHeaderError::TooShort { got, min } => FrameDecodeError::ShortHeader { got, min },
        FrameHeaderError::BadMagic => FrameDecodeError::BadMagic,
        FrameHeaderError::VersionMismatch { expected, got } => FrameDecodeError::VersionMismatch {
            expected,
            got,
        },
        FrameHeaderError::UnknownFrameType(t) => FrameDecodeError::UnknownFrameType(t),
    }
}

fn fault_of_header(e: FrameHeaderError) -> (r: FrameDecodeError)
    ensures
        r == frame_fault(e),
{
    match e {
        FrameHeaderError::TooShort { got, min } => FrameDecodeError::ShortHeader { got, min },
        FrameHeaderError::BadMagic => FrameDecodeError::BadMagic,
        FrameHeaderError::VersionMismatch { expected, got } => {
            FrameDecodeError::VersionMismatch { expected, got }
        },
        FrameHeaderError::UnknownFrameType(t) => FrameDecodeError::UnknownFrameType(t),
    }
}

impl std::convert::From<FrameHeaderError> for FrameDecodeError {
    fn from(value: FrameHeaderError) -> (r: FrameDecodeError) {
        fault_of_header(value)
    }
}

impl vstd::std_specs::convert::FromSpecImpl<FrameHeaderError> for FrameDecodeError {
    open spec fn obeys_from_spec() -> bool {
        true
    }

    open spec fn from_spec(value: FrameHeaderError) -> FrameDecodeError {
        frame_fault(value)
    }
}

/// The bytes of a frame: its header, with the length of the payload filled in,
/// and the payload.
pub open spec fn frame_bytes(header: FrameHeader, payload: Seq<u8>) -> Seq<u8> {
    header.with_len(payload.len()).spec_bytes() + payload
}

/// The header and the payload of a frame that takes up all of `bytes`.
pub open spec fn spec_decode_frame(bytes: Seq<u8>) -> Result<
    (FrameHeader, Seq<u8>),
    FrameDecodeError,
> {
    match FrameHeader::spec_decode(bytes) {
        Err(e) => Err(frame_fault(e)),
        Ok(header) => {
            let payload = bytes.skip(FRAME_HEADER_LEN as int);
            if payload.len() != header.payload_len {
                Err(
                    FrameDecodeError::PayloadLengthMismatch {
                        expected: header.payload_len as usize,
                        actual: payload.len() as usize,
                    },
                )
            } else {
                Ok((header, payload))
            }
        },
    }
}

/// Writes a complete frame. The payload length of `header` is replaced by the
/// length of `payload`.
pub fn encode_frame(header: FrameHeader, payload: &[u8]) -> (r: Vec<u8>)
    ensures
        r@ == frame_bytes(header, payload@),
{
    let header = FrameHeader { payload_len: payload.len() as u32, ..header };
    let head = header.encode();
    let mut out: Vec<u8> = Vec::new();
    push_bytes(&mut out, &head);
    push_bytes(&mut out, payload);
    assert(out@ =~= frame_bytes(header, payload@));
    out
}

/// Reads a complete frame: the header and the payload.
pub fn decode_frame(bytes: &[u8]) -> (r: Result<(FrameHeader, &[u8]), FrameDecodeError>)
    ensures
        match r {
            Ok((header, payload)) => spec_decode_frame(bytes@) == Ok::<
                (FrameHeader, Seq<u8>),
                FrameDecodeError,
            >((header, payload@)),
            Err(e) => spec_decode_frame(bytes@) == Err::<(FrameHeader, Seq<u8>), FrameDecodeError>(
                e,
            ),
        },
{
    let header = match FrameHeader::decode(bytes) {
        Ok(h) => h,
        Err(e) => {
            return Err(FrameDecodeError::from(e));
        },
    };
    let payload = &bytes[FRAME_HEADER_LEN..bytes.len()];
    assert(payload@ =~= bytes@.skip(FRAME_HEADER_LEN as int));
    let expected: usize = header.payload_len as usize;
    if payload.len() != expected {
        return Err(FrameDecodeError::PayloadLengthMismatch { expected, actual: payload.len() });
    }
    Ok((header, payload))
}

/// A frame type read back from its byte is the same frame type, and a byte
/// that stands for a frame type is the one it is written with.
pub proof fn law_frame_type_codes(t: FrameType, code: u8)
    ensures
        FrameType::spec_of_code(t.spec_code()) == Some(t),
        FrameType::spec_of_code(code) matches Some(u) ==> u.spec_code() == code,
{
}

pub proof fn lemma_header_bytes(header: FrameHeader)
    ensures
        ({
            let b = header.spec_bytes();
            &&& b.len() == FRAME_HEADER_LEN
            &&& b.subrange(0, 4) == FRAME_MAGIC@
            &&& b[4] == header.version
            &&& b[5] == header.frame_type.spec_code()
            &&& b.subrange(6, 14) == be_bytes(header.request_id as nat, 8)
            &&& b.subrange(14, 18) == be_bytes(header.payload_len as nat, 4)
        }),
{
    lemma_be_bytes_len(header.request_id as nat, 8);
    lemma_be_bytes_len(header.payload_len as nat, 4);
    let b = header.spec_bytes();
    assert(b.subrange(0, 4) =~= FRAME_MAGIC@);
    assert(b.subrange(6, 14) =~= be_bytes(header.request_id as nat, 8));
    assert(b.subrange(14, 18) =~= be_bytes(header.payload_len as nat, 4));
}

/// A header that was written, with anything behind it, reads back unchanged.
pub proof fn law_header_reads_back(header: FrameHeader, rest: Seq<u8>)
    requires
        header.version == PROTOCOL_VERSION,
    ensures
        FrameHeader::spec_decode(header.spec_bytes() + rest) == Ok::<FrameHeader, FrameHeaderError>(
            header,
        ),
{
    lemma_header_bytes(header);
    lemma_byte_capacities();
    law_be_value_of_be_bytes(header.request_id as nat, 8);
    law_be_value_of_be_bytes(header.payload_len as nat, 4);
    let b = header.spec_bytes();
    let input = b + rest;
    assert(input.subrange(0, 4) =~= b.subrange(0, 4));
    assert(input.subrange(6, 14) =~= b.subrange(6, 14));
    assert(input.subrange(14, 18) =~= b.subrange(14, 18));
}

/// A header that was read is written as the bytes that it was read from.
pub proof fn law_header_writes_back(input: Seq<u8>)
    ensures
        FrameHeader::spec_decode(input) matches Ok(header) ==> header.spec_bytes() == input.take(
            FRAME_HEADER_LEN as int,
        ) && header.version == PROTOCOL_VERSION,
{
    if let Ok(header) = FrameHeader::spec_decode(input) {
        lemma_byte_capacities();
        lemma_be_value_bound(input.subrange(6, 14));
        lemma_be_value_bound(input.subrange(14, 18));
        law_be_bytes_of_be_value(input.subrange(6, 14));
        law_be_bytes_of_be_value(input.subrange(14, 18));
        law_frame_type_codes(header.frame_type, input[5]);
        assert(header.spec_bytes() =~= input.take(FRAME_HEADER_LEN as int));
    }
}

/// A frame that was written reads back as its header, with the length of the
/// payload filled in, and its payload.
pub proof fn law_frame_reads_back(header: FrameHeader, payload: Seq<u8>)
    requires
        header.version == PROTOCOL_VERSION,
        payload.len() <= u32::MAX,
    ensures
        spec_decode_frame(frame_bytes(header, payload)) == Ok::<
            (FrameHeader, Seq<u8>),
            FrameDecodeError,
        >((header.with_len(payload.len()), payload)),
{
    let h = header.with_len(payload.len());
    law_header_reads_back(h, payload);
    lemma_header_bytes(h);
    assert(frame_bytes(header, payload).skip(FRAME_HEADER_LEN as int) =~= payload);
}

/// A frame that was read is written as the bytes that it was read from.
pub proof fn law_frame_writes_back(bytes: Seq<u8>)
    ensures
        spec_decode_frame(bytes) matches Ok((header, payload)) ==> frame_bytes(header, payload)
            == bytes,
{
    if let Ok((header, payload)) = spec_decode_frame(bytes) {
        law_header_writes_back(bytes);
        assert(header.with_len(payload.len()) == header);
        assert(frame_bytes(header, payload) =~= bytes);
    }
}

/// A frame with anything behind it is refused: two frames in a row are not
/// taken for one.
pub proof fn law_concatenation_is_refused(header: FrameHeader, payload: Seq<u8>, rest: Seq<u8>)
    requires
        header.version == PROTOCOL_VERSION,
        payload.len() <= u32::MAX,
        rest.len() > 0,
    ensures
        spec_decode_frame(frame_bytes(header, payload) + rest) == Err::<
            (FrameHeader, Seq<u8>),
            FrameDecodeError,
        >(
            FrameDecodeError::PayloadLengthMismatch {
                expected: payload.len() as usize,
                actual: (payload.len() + rest.len()) as usize,
            },
        ),
{
    let h = header.with_len(payload.len());
    law_header_reads_back(h, payload + rest);
    lemma_header_bytes(h);
    let all = frame_bytes(header, payload) + rest;
    assert(all =~= h.spec_bytes() + (payload + rest));
    assert(all.skip(FRAME_HEADER_LEN as int) =~= payload + rest);
}

} // verus!
