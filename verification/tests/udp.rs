//! Datagrams: chunks of frames and their reassembly.

use clustat::common::frame::{encode_frame, FrameDecodeError, FrameHeader, FrameType};
use clustat::common::reassembly::UdpFrameReassembler;
use clustat::common::udp::{
    decode_udp_single_chunk, decode_udp_single_chunk_ref, effective_udp_payload_capacity,
    encode_udp_chunks, encode_udp_single_chunk, encode_udp_single_chunk_from_parts, parse_mtu,
    route_device, UdpChunkError, UdpChunkHeader, UDP_CHUNK_HEADER_LEN, UDP_MIN_PAYLOAD,
};

fn frame(payload_len: usize) -> Vec<u8> {
    let payload = vec![7u8; payload_len];
    encode_frame(
        FrameHeader::new(FrameType::RuntimePayload, 42, payload.len() as u32),
        &payload,
    )
}

#[test]
fn single_chunk_roundtrip() {
    let frame = frame(64);
    let chunks = encode_udp_chunks(&frame, 512).expect("chunks");
    assert_eq!(chunks.len(), 1);
    let mut reassembler = UdpFrameReassembler::new(0, 1000);
    let out = reassembler
        .insert(&chunks[0])
        .expect("insert")
        .expect("complete");
    assert_eq!(out, frame);
}

#[test]
fn multi_chunk_out_of_order_roundtrip() {
    let frame = frame(1900);
    let chunks = encode_udp_chunks(&frame, 512).expect("chunks");
    assert!(chunks.len() > 2);
    let mut reassembler = UdpFrameReassembler::new(0, 1000);
    let mut out = None;
    for idx in (0..chunks.len()).rev() {
        out = reassembler.insert(&chunks[idx]).expect("insert").or(out);
    }
    assert_eq!(out.expect("complete"), frame);
}

#[test]
fn missing_chunk_does_not_complete() {
    let frame = frame(1900);
    let chunks = encode_udp_chunks(&frame, 512).expect("chunks");
    let mut reassembler = UdpFrameReassembler::new(0, 1000);
    for chunk in chunks.iter().take(chunks.len() - 1) {
        assert!(reassembler.insert(chunk).expect("insert").is_none());
    }
}

#[test]
fn checksum_mismatch_is_rejected() {
    let frame = frame(1900);
    let mut chunks = encode_udp_chunks(&frame, 512).expect("chunks");
    let last = chunks.last_mut().expect("last");
    let last_byte = last.last_mut().expect("byte");
    *last_byte ^= 0xff;
    let mut reassembler = UdpFrameReassembler::new(0, 1000);
    for chunk in chunks.iter().take(chunks.len() - 1) {
        assert!(reassembler.insert(chunk).expect("insert").is_none());
    }
    assert_eq!(
        reassembler.insert(chunks.last().expect("last")),
        Err(UdpChunkError::ChecksumMismatch)
    );
}

#[test]
fn chunk_header_reads_back() {
    let header = UdpChunkHeader {
        version: 1,
        frame_type: FrameType::RuntimePayload,
        request_id: 42,
        frame_len: 100,
        chunk_id: 1,
        total_chunks: 3,
        payload_len: 4,
        prev_checksum: 0x01020304,
        next_checksum: 0x05060708,
    };
    let mut datagram = header.encode().to_vec();
    assert_eq!(&datagram[0..4], b"G4U1");
    datagram.extend_from_slice(b"abcd");
    assert_eq!(UdpChunkHeader::decode(&datagram), Ok(header));
}

#[test]
fn whole_frame_in_one_datagram_carries_its_checksum() {
    let frame = frame(9);
    let datagram = encode_udp_single_chunk(&frame).expect("datagram");
    let header = UdpChunkHeader::decode(&datagram).expect("header");
    assert_eq!(header.prev_checksum, crc32fast::hash(&frame));
    assert_eq!(header.next_checksum, crc32fast::hash(&frame));
    assert_eq!(decode_udp_single_chunk(&datagram), Ok(Some(frame.clone())));
    assert_eq!(decode_udp_single_chunk_ref(&datagram), Ok(Some(&frame[..])));
    assert_eq!(encode_udp_chunks(&frame, 512), Ok(vec![datagram]));
}

#[test]
fn parts_make_the_datagram_of_their_frame() {
    let payload = vec![7u8; 64];
    assert_eq!(
        encode_udp_single_chunk_from_parts(FrameType::RuntimePayload, 42, &payload),
        encode_udp_single_chunk(&frame(64))
    );
}

#[test]
fn neighbours_announce_each_others_checksums() {
    let frame = frame(1900);
    let chunks = encode_udp_chunks(&frame, 512).expect("chunks");
    let headers: Vec<UdpChunkHeader> = chunks
        .iter()
        .map(|c| UdpChunkHeader::decode(c).expect("header"))
        .collect();
    let n = chunks.len();
    for i in 0..n {
        let sum = crc32fast::hash(&chunks[i][UDP_CHUNK_HEADER_LEN..]);
        assert_eq!(headers[(i + 1) % n].prev_checksum, sum);
        assert_eq!(headers[(i + n - 1) % n].next_checksum, sum);
    }
    assert_eq!(decode_udp_single_chunk(&chunks[0]), Ok(None));
}

#[test]
fn frames_that_cannot_be_cut_are_refused() {
    assert_eq!(encode_udp_chunks(&[], 512), Err(UdpChunkError::EmptyFrame));
    assert_eq!(
        encode_udp_chunks(&frame(4), 16),
        Err(UdpChunkError::PayloadTooSmall { got: 16, min: UDP_MIN_PAYLOAD })
    );
    assert_eq!(
        encode_udp_chunks(b"G4C1", 512),
        Err(UdpChunkError::Frame(FrameDecodeError::ShortHeader { got: 4, min: 18 }))
    );
}

#[test]
fn malformed_datagrams_are_refused() {
    let good = encode_udp_single_chunk(&frame(4)).expect("datagram");
    assert_eq!(
        decode_udp_single_chunk(&good[..10]),
        Err(UdpChunkError::ShortDatagram { got: 10, min: UDP_CHUNK_HEADER_LEN })
    );
    let mut bad = good.clone();
    bad[0] = 0;
    assert_eq!(decode_udp_single_chunk(&bad), Err(UdpChunkError::BadMagic));
    let mut bad = good.clone();
    bad[4] = 2;
    assert_eq!(
        decode_udp_single_chunk(&bad),
        Err(UdpChunkError::VersionMismatch { expected: 1, got: 2 })
    );
    let mut bad = good.clone();
    bad[5] = 250;
    assert_eq!(decode_udp_single_chunk(&bad), Err(UdpChunkError::UnknownFrameType(250)));
    let last = good.len() - 1;
    let mut bad = good.clone();
    bad[last] ^= 1;
    assert_eq!(decode_udp_single_chunk(&bad), Err(UdpChunkError::ChecksumMismatch));
}

#[test]
fn frames_with_other_ids_do_not_mix() {
    let one = encode_udp_chunks(&frame(1900), 512).expect("chunks");
    let payload = vec![9u8; 1900];
    let other_frame = encode_frame(FrameHeader::new(FrameType::RuntimePayload, 43, 0), &payload);
    let other = encode_udp_chunks(&other_frame, 512).expect("chunks");
    let mut reassembler = UdpFrameReassembler::new(0, 1000);
    for i in 0..one.len() - 1 {
        assert_eq!(reassembler.insert(&one[i]), Ok(None));
        assert_eq!(reassembler.insert(&other[i]), Ok(None));
    }
    assert_eq!(reassembler.insert(&other[one.len() - 1]), Ok(Some(other_frame)));
    assert_eq!(reassembler.insert(&one[one.len() - 1]), Ok(Some(frame(1900))));
}

#[test]
fn reassembly_expires() {
    let reassembler = UdpFrameReassembler::new(5_000, 1000);
    assert!(!reassembler.is_expired(5_999));
    assert!(reassembler.is_expired(6_000));
}

#[test]
fn room_in_a_datagram_follows_the_link() {
    assert_eq!(effective_udp_payload_capacity(true, 0, Some(1500)), 1500 - 28 - 32);
    assert_eq!(effective_udp_payload_capacity(false, 0, Some(1500)), 1500 - 48 - 32);
    assert_eq!(effective_udp_payload_capacity(true, 1400, Some(9000)), 1400 - 28 - 32);
    assert_eq!(effective_udp_payload_capacity(true, 0, None), 1200 - 28 - 32);
}

#[test]
fn link_of_a_route_is_found() {
    assert_eq!(
        route_device("10.0.0.5 via 10.0.0.1 dev eth0 src 10.0.0.2\n    cache"),
        Some("eth0".to_string())
    );
    assert_eq!(route_device("unreachable 10.0.0.5"), None);
    assert_eq!(route_device("local dev"), None);
    assert_eq!(parse_mtu("1500\n"), Some(1500));
    assert_eq!(parse_mtu("jumbo"), None);
}

#[test]
fn intact_chunk_mends_a_refused_frame() {
    let chunks = encode_udp_chunks(&frame(1900), 512).expect("chunks");
    let mut corrupt = chunks[1].clone();
    let last = corrupt.len() - 1;
    corrupt[last] ^= 0x40;
    let mut reassembler = UdpFrameReassembler::new(0, 1000);
    assert_eq!(reassembler.insert(&chunks[2]), Ok(None));
    assert_eq!(reassembler.insert(&corrupt), Ok(None));
    assert!(reassembler.insert(b"junk").is_err());
    for chunk in &chunks[3..] {
        assert_eq!(reassembler.insert(chunk), Ok(None));
    }
    assert_eq!(reassembler.insert(&chunks[0]), Err(UdpChunkError::ChecksumMismatch));
    assert_eq!(reassembler.insert(&chunks[1]), Ok(Some(frame(1900))));
}

#[test]
fn parts_of_a_large_frame_are_refused_as_the_frame_is() {
    let payload = vec![1u8; 70_000];
    let whole = encode_frame(FrameHeader::new(FrameType::RuntimePayload, 42, 0), &payload);
    assert_eq!(
        encode_udp_single_chunk_from_parts(FrameType::RuntimePayload, 42, &payload),
        encode_udp_single_chunk(&whole)
    );
    assert_eq!(
        encode_udp_single_chunk(&whole),
        Err(UdpChunkError::PayloadTooLarge { len: 70_018, max: 65_535 })
    );
}

#[test]
fn checksum_is_the_one_of_ieee() {
    assert_eq!(crc32fast::hash(b"123456789"), 0xcbf4_3926);
    let frame = frame(4);
    let datagram = encode_udp_single_chunk(&frame).expect("datagram");
    let header = UdpChunkHeader::decode(&datagram).expect("header");
    let mut state = 0xffff_ffffu32;
    for byte in &frame {
        state ^= u32::from(*byte);
        for _ in 0..8 {
            state = if state & 1 == 1 { (state >> 1) ^ 0xedb8_8320 } else { state >> 1 };
        }
    }
    assert_eq!(header.prev_checksum, state ^ 0xffff_ffff);
    assert_eq!(header.next_checksum, state ^ 0xffff_ffff);
}

#[test]
fn any_changed_byte_behind_the_header_is_found() {
    let good = encode_udp_single_chunk(&frame(40)).expect("datagram");
    for at in UDP_CHUNK_HEADER_LEN..good.len() {
        for bits in [1u8, 0x80, 0xff] {
            let mut bad = good.clone();
            bad[at] ^= bits;
            assert_eq!(decode_udp_single_chunk(&bad), Err(UdpChunkError::ChecksumMismatch));
        }
    }
}
