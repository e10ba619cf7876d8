//! The checksum of chunks: the CRC-32 of IEEE 802.3.

use vstd::prelude::*;

verus! {

/// The division of one bit, in the reflected form of the polynomial.
pub open spec fn crc_bit(c: u32) -> u32 {
    if c & 1 == 1 {
        (c >> 1) ^ 0xedb8_8320
    } else {
        c >> 1
    }
}

/// The state after one more byte.
pub open spec fn crc_byte(c: u32, b: u8) -> u32 {
    let x = c ^ (b as u32);
    crc_bit(crc_bit(crc_bit(crc_bit(crc_bit(crc_bit(crc_bit(crc_bit(x))))))))
}

/// The state after the bytes, from all ones on.
pub open spec fn crc_state(bytes: Seq<u8>) -> u32
    decreases bytes.len(),
{
    if bytes.len() == 0 {
        0xffff_ffff
    } else {
        crc_byte(crc_state(bytes.drop_last()), bytes.last())
    }
}

/// The CRC-32 of a byte sequence.
#[verifier::opaque]
pub open spec fn crc32(bytes: Seq<u8>) -> u32 {
    crc_state(bytes) ^ 0xffff_ffff
}

/// `crc32fast::hash`: the CRC-32 of the bytes.
#[verifier::external_body]
pub(crate) fn checksum(payload: &[u8]) -> (r: u32)
    ensures
        r == crc32(payload@),
{
    crc32fast::hash(payload)
}

/// `crc32fast::Hasher`, fed with two slices in turn: the CRC-32 of the one
/// followed by the other.
#[verifier::external_body]
pub(crate) fn checksum_of_two(first: &[u8], second: &[u8]) -> (r: u32)
    ensures
        r == crc32(first@ + second@),
{
    let mut hasher = crc32fast::Hasher::new();
    hasher.update(first);
    hasher.update(second);
    hasher.finalize()
}

// ---------------------------------------------------------------------------
// What the checksum tells apart

proof fn lemma_bit_injective(x: u32, y: u32)
    requires
        crc_bit(x) == crc_bit(y),
    ensures
        x == y,
{
    assert((if x & 1 == 1 {
        (x >> 1) ^ 0xedb8_8320
    } else {
        x >> 1
    }) == (if y & 1 == 1 {
        (y >> 1) ^ 0xedb8_8320
    } else {
        y >> 1
    }) ==> x == y) by (bit_vector);
}

proof fn lemma_byte_injective(c: u32, d: u32, a: u8, b: u8)
    requires
        crc_byte(c, a) == crc_byte(d, b),
    ensures
        c == d ==> a == b,
        a == b ==> c == d,
{
    let x0 = c ^ (a as u32);
    let y0 = d ^ (b as u32);
    let (x1, y1) = (crc_bit(x0), crc_bit(y0));
    let (x2, y2) = (crc_bit(x1), crc_bit(y1));
    let (x3, y3) = (crc_bit(x2), crc_bit(y2));
    let (x4, y4) = (crc_bit(x3), crc_bit(y3));
    let (x5, y5) = (crc_bit(x4), crc_bit(y4));
    let (x6, y6) = (crc_bit(x5), crc_bit(y5));
    let (x7, y7) = (crc_bit(x6), crc_bit(y6));
    lemma_bit_injective(x7, y7);
    lemma_bit_injective(x6, y6);
    lemma_bit_injective(x5, y5);
    lemma_bit_injective(x4, y4);
    lemma_bit_injective(x3, y3);
    lemma_bit_injective(x2, y2);
    lemma_bit_injective(x1, y1);
    lemma_bit_injective(x0, y0);
    assert(c ^ (a as u32) == d ^ (b as u32) ==> (c == d ==> a == b) && (a == b ==> c == d))
        by (bit_vector);
}

/// Whether two byte sequences are the same but for the byte at `k`.
pub open spec fn differ_at(s: Seq<u8>, t: Seq<u8>, k: int) -> bool {
    &&& s.len() == t.len()
    &&& 0 <= k < s.len()
    &&& s[k] != t[k]
    &&& forall|j: int| 0 <= j < s.len() && j != k ==> #[trigger] s[j] == t[j]
}

proof fn lemma_states_differ(s: Seq<u8>, t: Seq<u8>, k: int)
    requires
        differ_at(s, t, k),
    ensures
        crc_state(s) != crc_state(t),
    decreases s.len(),
{
    let n = s.len() - 1;
    let p = s.drop_last();
    let q = t.drop_last();
    if crc_state(s) == crc_state(t) {
        lemma_byte_injective(crc_state(p), crc_state(q), s.last(), t.last());
        if k == n {
            assert(p =~= q);
        } else {
            assert(s[n] == t[n]);
            assert(differ_at(p, q, k));
            lemma_states_differ(p, q, k);
        }
    }
}

/// One changed byte changes the checksum.
pub proof fn law_changed_byte_changes_the_checksum(s: Seq<u8>, t: Seq<u8>, k: int)
    requires
        differ_at(s, t, k),
    ensures
        crc32(s) != crc32(t),
{
    reveal(crc32);
    lemma_states_differ(s, t, k);
    let x = crc_state(s);
    let y = crc_state(t);
    assert(x ^ 0xffff_ffff == y ^ 0xffff_ffff ==> x == y) by (bit_vector);
}

} // verus!
