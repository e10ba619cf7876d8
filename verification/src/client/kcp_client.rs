//! Conversation numbers of KCP sessions.

use vstd::prelude::*;
use crate::bytes::{be_value, le_value, lemma_byte_capacities, read_be, read_le};
use crate::server::model::count_byte;

verus! {

/// The words of an address, least significant byte first, folded into a number.
pub open spec fn folded(octets: Seq<u8>, start: u32, n: int) -> u32
    decreases n,
{
    if n <= 0 {
        start
    } else {
        folded(octets, start, n - 1) ^ (le_value(octets.subrange(4 * n - 4, 4 * n)) as u32)
    }
}

/// A number from an address and a port: an IPv4 address counts as one number,
/// an IPv6 address is folded.
pub open spec fn address_seed(octets: Seq<u8>, port: u16) -> u32 {
    if octets.len() == 4 {
        (be_value(octets) as u32) ^ (port as u32)
    } else {
        folded(octets, port as u32, octets.len() as int / 4)
    }
}

/// A number from an address and a port.
pub fn addr_seed(octets: &[u8], port: u16) -> (r: u32)
    ensures
        r == address_seed(octets@, port),
{
    proof {
        lemma_byte_capacities();
    }
    if octets.len() == 4 {
        let ip: u64 = read_be(octets, 0, 4);
        assert(octets@.subrange(0, 4) =~= octets@);
        return (ip as u32) ^ (port as u32);
    }
    let total: usize = octets.len();
    let mut seed: u32 = port as u32;
    let mut i: usize = 0;
    while i < total / 4
        invariant
            total == octets@.len(),
            i <= total / 4,
            seed == folded(octets@, port as u32, i as int),
        decreases total / 4 - i,
    {
        let word: u64 = read_le(octets, 4 * i, 4);
        seed = seed ^ (word as u32);
        i = i + 1;
    }
    seed
}

/// The first conversation number of a process. No conversation has number zero.
pub fn first_conv(time_seed: u32, addr_seed: u32, process_seed: u32) -> (r: u32)
    ensures
        r != 0,
        (time_seed ^ addr_seed ^ process_seed) != 0 ==> r == time_seed ^ addr_seed ^ process_seed,
        (time_seed ^ addr_seed ^ process_seed) == 0 ==> r == 1,
{
    let seed: u32 = time_seed ^ addr_seed ^ process_seed;
    if seed == 0 {
        1
    } else {
        seed
    }
}

/// The number after a conversation number, past zero.
pub open spec fn conv_after(conv: u32) -> u32 {
    if conv == u32::MAX {
        1
    } else {
        (conv + 1) as u32
    }
}

/// Hands out the next conversation number. The first is `initial`.
pub fn next_conv(next: &mut u32, initial: u32) -> (r: u32)
    requires
        initial != 0,
    ensures
        r != 0,
        r == (if *old(next) == 0 {
            initial
        } else {
            *old(next)
        }),
        *final(next) == conv_after(r),
        *final(next) != 0,
{
    let conv: u32 = if *next == 0 {
        initial
    } else {
        *next
    };
    *next = if conv == u32::MAX {
        1
    } else {
        conv + 1
    };
    conv
}

/// The number of resources in a reply, where it is not the one that the
/// handshake gave. A handshake without a snapshot gave none.
pub fn changed_gres_num(payload_len: u16, announced: u8, got: usize) -> (r: Option<u8>)
    ensures
        r == (if payload_len != 0 && count_byte(got as nat) != announced {
            Some(count_byte(got as nat))
        } else {
            None::<u8>
        }),
{
    let count: u8 = if got > 255 {
        255
    } else {
        got as u8
    };
    if payload_len != 0 && count != announced {
        Some(count)
    } else {
        None
    }
}

} // verus!
