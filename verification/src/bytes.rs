//! Unsigned integers as big-endian and little-endian byte sequences.

use vstd::prelude::*;

verus! {

/// 256 to the power `n`: one more than the largest number that `n` bytes hold.
pub open spec fn byte_capacity(n: nat) -> nat
    decreases n,
{
    if n == 0 {
        1
    } else {
        256 * byte_capacity((n - 1) as nat)
    }
}

/// The number that `s` writes in base 256, most significant byte first.
pub open spec fn be_value(s: Seq<u8>) -> nat
    decreases s.len(),
{
    if s.len() == 0 {
        0
    } else {
        be_value(s.drop_last()) * 256 + s.last() as nat
    }
}

/// The `n` low bytes of `v`, most significant byte first.
pub open spec fn be_bytes(v: nat, n: nat) -> Seq<u8>
    decreases n,
{
    if n == 0 {
        Seq::empty()
    } else {
        be_bytes(v / 256, (n - 1) as nat).push((v % 256) as u8)
    }
}

/// The `n` low bytes of `v`, least significant byte first.
pub open spec fn le_bytes(v: nat, n: nat) -> Seq<u8> {
    be_bytes(v, n).reverse()
}

/// The number that `s` writes in base 256, least significant byte first.
pub open spec fn le_value(s: Seq<u8>) -> nat {
    be_value(s.reverse())
}

pub proof fn lemma_be_bytes_len(v: nat, n: nat)
    ensures
        be_bytes(v, n).len() == n,
    decreases n,
{
    if n > 0 {
        lemma_be_bytes_len(v / 256, (n - 1) as nat);
    }
}

pub proof fn lemma_be_value_bound(s: Seq<u8>)
    ensures
        be_value(s) < byte_capacity(s.len()),
    decreases s.len(),
{
    if s.len() > 0 {
        lemma_be_value_bound(s.drop_last());
    }
}

/// The capacities that machine integers need.
pub proof fn lemma_byte_capacities()
    ensures
        byte_capacity(1) == 0x100,
        byte_capacity(2) == 0x1_0000,
        byte_capacity(4) == 0x1_0000_0000,
        byte_capacity(8) == 0x1_0000_0000_0000_0000,
{
    reveal_with_fuel(byte_capacity, 9);
}

pub proof fn lemma_byte_capacity_mono(a: nat, b: nat)
    requires
        a <= b,
    ensures
        0 < byte_capacity(a) <= byte_capacity(b),
    decreases b,
{
    if b > 0 {
        if a < b {
            lemma_byte_capacity_mono(a, (b - 1) as nat);
        } else {
            lemma_byte_capacity_mono((a - 1) as nat, (b - 1) as nat);
        }
    }
}

/// Reading back what was written gives the number, if it fits.
pub proof fn law_be_value_of_be_bytes(v: nat, n: nat)
    requires
        v < byte_capacity(n),
    ensures
        be_value(be_bytes(v, n)) == v,
        be_bytes(v, n).len() == n,
    decreases n,
{
    if n > 0 {
        assert(v / 256 < byte_capacity((n - 1) as nat));
        law_be_value_of_be_bytes(v / 256, (n - 1) as nat);
        assert(be_bytes(v, n).drop_last() =~= be_bytes(v / 256, (n - 1) as nat));
        assert(be_bytes(v, n).last() == (v % 256) as u8);
    }
}

/// Writing the number that was read gives the same bytes.
pub proof fn law_be_bytes_of_be_value(s: Seq<u8>)
    ensures
        be_bytes(be_value(s), s.len()) == s,
    decreases s.len(),
{
    if s.len() == 0 {
        assert(s =~= Seq::empty());
    } else {
        law_be_bytes_of_be_value(s.drop_last());
        assert((be_value(s) / 256) == be_value(s.drop_last()));
        assert((be_value(s) % 256) as u8 == s.last());
        assert(s =~= s.drop_last().push(s.last()));
    }
}

/// The same for the little-endian form.
pub proof fn law_le_value_of_le_bytes(v: nat, n: nat)
    requires
        v < byte_capacity(n),
    ensures
        le_value(le_bytes(v, n)) == v,
        le_bytes(v, n).len() == n,
{
    law_be_value_of_be_bytes(v, n);
    assert(be_bytes(v, n).reverse().reverse() =~= be_bytes(v, n));
}

/// Appends the `n` low bytes of `v`, most significant first.
pub fn push_be(out: &mut Vec<u8>, v: u64, n: usize)
    ensures
        final(out)@ == old(out)@ + be_bytes(v as nat, n as nat),
    decreases n,
{
    if n > 0 {
        push_be(out, v / 256, n - 1);
        out.push((v % 256) as u8);
        assert(out@ =~= old(out)@ + be_bytes(v as nat, n as nat));
    } else {
        assert(out@ =~= old(out)@ + be_bytes(v as nat, 0));
    }
}

/// Appends the `n` low bytes of `v`, least significant first.
pub fn push_le(out: &mut Vec<u8>, v: u64, n: usize)
    ensures
        final(out)@ == old(out)@ + le_bytes(v as nat, n as nat),
    decreases n,
{
    if n > 0 {
        out.push((v % 256) as u8);
        push_le(out, v / 256, n - 1);
        proof {
            let rest = be_bytes((v / 256) as nat, (n - 1) as nat);
            assert(rest.push((v % 256) as u8).reverse() =~= seq![(v % 256) as u8] + rest.reverse());
        }
        assert(out@ =~= old(out)@ + le_bytes(v as nat, n as nat));
    } else {
        assert(out@ =~= old(out)@ + le_bytes(v as nat, 0));
    }
}

/// The number in the `n` bytes of `input` from `from`, most significant first.
pub fn read_be(input: &[u8], from: usize, n: usize) -> (r: u64)
    requires
        n <= 8,
        from + n <= input@.len(),
    ensures
        r == be_value(input@.subrange(from as int, from + n)),
        r < byte_capacity(n as nat),
{
    let mut value: u64 = 0;
    let mut i: usize = 0;
    let total: usize = input.len();
    assert(input@.subrange(from as int, from + 0) =~= Seq::empty());
    while i < n
        invariant
            i <= n <= 8,
            from + n <= total == input@.len(),
            value == be_value(input@.subrange(from as int, from + i)),
            value < byte_capacity(i as nat),
        decreases n - i,
    {
        proof {
            lemma_byte_capacity_mono((i + 1) as nat, 8);
            lemma_byte_capacities();
            let next = input@.subrange(from as int, from + i + 1);
            assert(next.drop_last() =~= input@.subrange(from as int, from + i));
            assert(next.last() == input@[from + i]);
            lemma_be_value_bound(next);
        }
        value = value * 256 + input[from + i] as u64;
        i = i + 1;
    }
    value
}

/// The number in the `n` bytes of `input` from `from`, least significant first.
pub fn read_le(input: &[u8], from: usize, n: usize) -> (r: u64)
    requires
        n <= 8,
        from + n <= input@.len(),
    ensures
        r == le_value(input@.subrange(from as int, from + n)),
{
    let mut value: u64 = 0;
    let mut i: usize = n;
    let total: usize = input.len();
    assert(input@.subrange(from + n, from + n).reverse() =~= Seq::empty());
    while i > 0
        invariant
            i <= n <= 8,
            from + n <= total == input@.len(),
            value == le_value(input@.subrange(from + i, from + n)),
            value < byte_capacity((n - i) as nat),
        decreases i,
    {
        proof {
            lemma_byte_capacity_mono((n - i + 1) as nat, 8);
            lemma_byte_capacities();
            let next = input@.subrange(from + i - 1, from + n).reverse();
            assert(next.drop_last() =~= input@.subrange(from + i, from + n).reverse());
            assert(next.last() == input@[from + i - 1]);
            lemma_be_value_bound(next);
        }
        i = i - 1;
        value = value * 256 + input[from + i] as u64;
    }
    value
}

/// Whether two byte slices hold the same bytes.
pub fn bytes_equal(a: &[u8], b: &[u8]) -> (r: bool)
    ensures
        r == (a@ == b@),
{
    if a.len() != b.len() {
        return false;
    }
    let mut i: usize = 0;
    while i < a.len()
        invariant
            i <= a@.len() == b@.len(),
            forall|j: int| 0 <= j < i ==> a@[j] == b@[j],
        decreases a@.len() - i,
    {
        if a[i] != b[i] {
            return false;
        }
        i = i + 1;
    }
    assert(a@ =~= b@);
    true
}

/// A copy of a byte slice.
pub fn copy_bytes(s: &[u8]) -> (r: Vec<u8>)
    ensures
        r@ == s@,
{
    let mut out: Vec<u8> = Vec::new();
    push_bytes(&mut out, s);
    assert(out@ =~= s@);
    out
}

/// Appends a byte slice.
pub fn push_bytes(out: &mut Vec<u8>, s: &[u8])
    ensures
        final(out)@ == old(out)@ + s@,
{
    out.extend_from_slice(s);
    assert(out@ =~= old(out)@ + s@);
}

} // verus!
