//! What the hash of metadata tells apart.

use vstd::prelude::*;
use vstd::arithmetic::div_mod::lemma_fundamental_div_mod;
use crate::bytes::{be_bytes, le_bytes, law_le_value_of_le_bytes, lemma_byte_capacities};
use crate::common::snapshot::{
    all_static_fields, hash_byte, hash_bytes, hash_fields, metadata_fields, spec_metadata_hash,
    static_fields, MetadataView, StaticView,
};

verus! {

/// The multiplier of the hash.
const PRIME: u64 = 0x100000001b3;

/// One more than the largest hash.
const RANGE: u128 = 0x1_0000_0000_0000_0000;

/// One step is a multiplication but for a multiple of the range.
proof fn lemma_step(hash: u64, byte: u8) -> (k: int)
    ensures
        hash_byte(hash, byte) == (hash ^ (byte as u64)) * PRIME - k * RANGE,
{
    let x = hash ^ (byte as u64);
    let product = x * PRIME;
    lemma_fundamental_div_mod(product, RANGE as int);
    product / RANGE as int
}

/// Taking a byte into a hash changes its lowest byte only.
proof fn lemma_xor(hash: u64, byte: u8)
    ensures
        (hash ^ (byte as u64)) / 256 == hash / 256,
{
    assert((hash ^ (byte as u64)) / 256 == hash / 256) by (bit_vector);
}

/// Three bytes are told apart, whatever stood before them.
proof fn lemma_three(hash: u64, a: Seq<u8>, b: Seq<u8>)
    requires
        a.len() == 3,
        b.len() == 3,
        ({
            let a2 = hash_byte(hash_byte(hash, a[0]), a[1]);
            let b2 = hash_byte(hash_byte(hash, b[0]), b[1]);
            hash_byte(a2, a[2]) == hash_byte(b2, b[2])
        }),
    ensures
        a == b,
{
    let a1 = hash_byte(hash, a[0]);
    let b1 = hash_byte(hash, b[0]);
    let a2 = hash_byte(a1, a[1]);
    let b2 = hash_byte(b1, b[1]);
    lemma_injective(a2, b2, a[2], b[2]);
    lemma_xor(hash, a[0]);
    lemma_xor(hash, b[0]);
    lemma_xor(a1, a[1]);
    lemma_xor(b1, b[1]);
    lemma_xor(a2, a[2]);
    lemma_xor(b2, b[2]);
    let ka = lemma_step(hash, a[0]);
    let kb = lemma_step(hash, b[0]);
    let ja = lemma_step(a1, a[1]);
    let jb = lemma_step(b1, b[1]);
    let d = (hash ^ (a[0] as u64)) - (hash ^ (b[0] as u64));
    let e1 = ((a1 ^ (a[1] as u64)) - (b1 ^ (b[1] as u64))) - (a1 - b1);
    let e2 = a2 - b2;
    assert(-255 <= d <= 255);
    assert(-510 <= e1 <= 510);
    assert(-255 <= e2 <= 255);
    let k = ka - kb;
    let j = ja - jb;
    assert(a1 - b1 == d * PRIME - k * RANGE);
    assert(e2 == (d * PRIME - k * RANGE + e1) * PRIME - j * RANGE);
    let big = 870 * d + e1;
    let small = 189225 * d + 435 * e1 - e2;
    let turns = k * PRIME + j - d * 0x10000;
    assert(big * 0x100_0000_0000 + small == turns * RANGE);
    assert(turns == 0);
    assert(big == 0 && small == 0);
    assert(d == 0 && e1 == 0 && e2 == 0);
    lemma_xor_injective(hash, a[0], b[0]);
    assert(a1 == b1);
    lemma_xor_injective(a1, a[1], b[1]);
    lemma_xor_injective(a2, a[2], b[2]);
    assert(a =~= b);
}

proof fn lemma_xor_injective(hash: u64, a: u8, b: u8)
    ensures
        hash ^ (a as u64) == hash ^ (b as u64) ==> a == b,
{
    assert(hash ^ (a as u64) == hash ^ (b as u64) ==> a == b) by (bit_vector);
}

/// A step gives the same hash only from the same mixture.
proof fn lemma_injective(x: u64, y: u64, a: u8, b: u8)
    requires
        hash_byte(x, a) == hash_byte(y, b),
    ensures
        x ^ (a as u64) == y ^ (b as u64),
{
    let p = (x ^ (a as u64)) as int;
    let q = (y ^ (b as u64)) as int;
    let k = lemma_step(x, a);
    let j = lemma_step(y, b);
    // The inverse of the multiplier.
    let inverse: int = 0xce965057aff6957b;
    let turns: int = inverse * PRIME / RANGE as int;
    assert(inverse * PRIME == turns * RANGE + 1);
    assert((p - q) * PRIME == (k - j) * RANGE);
    assert((p - q) * (turns * RANGE + 1) == (k - j) * inverse * RANGE) by (nonlinear_arith)
        requires
            inverse * PRIME == turns * RANGE + 1,
            (p - q) * PRIME == (k - j) * RANGE,
    ;
    let n = (k - j) * inverse - (p - q) * turns;
    assert(p - q == n * RANGE) by (nonlinear_arith)
        requires
            (p - q) * (turns * RANGE + 1) == (k - j) * inverse * RANGE,
            n == (k - j) * inverse - (p - q) * turns,
    ;
    assert(n == 0);
}

proof fn lemma_same_byte(x: u64, y: u64, b: u8)
    requires
        hash_byte(x, b) == hash_byte(y, b),
    ensures
        x == y,
{
    lemma_injective(x, y, b, b);
    assert(x ^ (b as u64) == y ^ (b as u64) ==> x == y) by (bit_vector);
}

proof fn lemma_same_bytes(x: u64, y: u64, s: Seq<u8>)
    requires
        hash_bytes(x, s) == hash_bytes(y, s),
    ensures
        x == y,
    decreases s.len(),
{
    if s.len() > 0 {
        let rest = s.drop_last();
        lemma_same_byte(hash_bytes(x, rest), hash_bytes(y, rest), s.last());
        lemma_same_bytes(x, y, rest);
    }
}

proof fn lemma_in_two(hash: u64, s: Seq<u8>, t: Seq<u8>)
    ensures
        hash_bytes(hash, s + t) == hash_bytes(hash_bytes(hash, s), t),
    decreases t.len(),
{
    if t.len() == 0 {
        assert(s + t =~= s);
    } else {
        assert((s + t).drop_last() =~= s + t.drop_last());
        lemma_in_two(hash, s, t.drop_last());
    }
}

/// Whether two byte sequences of the same length differ within three
/// neighbouring places at most, from `k` on.
pub open spec fn differ_within(s: Seq<u8>, t: Seq<u8>, k: int) -> bool {
    &&& s.len() == t.len()
    &&& 0 <= k <= s.len() - 3
    &&& forall|j: int| 0 <= j < s.len() && !(k <= j < k + 3) ==> #[trigger] s[j] == t[j]
}

proof fn lemma_window(hash: u64, s: Seq<u8>, t: Seq<u8>, k: int)
    requires
        differ_within(s, t, k),
        hash_bytes(hash, s) == hash_bytes(hash, t),
    ensures
        s == t,
{
    let head = s.take(k);
    let a = s.subrange(k, k + 3);
    let b = t.subrange(k, k + 3);
    let tail = s.skip(k + 3);
    assert(s =~= head + a + tail);
    assert(t =~= head + b + tail);
    lemma_in_two(hash, head + a, tail);
    lemma_in_two(hash, head + b, tail);
    lemma_same_bytes(hash_bytes(hash, head + a), hash_bytes(hash, head + b), tail);
    lemma_in_two(hash, head, a);
    lemma_in_two(hash, head, b);
    lemma_unrolled(hash_bytes(hash, head), a);
    lemma_unrolled(hash_bytes(hash, head), b);
    lemma_three(hash_bytes(hash, head), a, b);
}

proof fn lemma_unrolled(hash: u64, s: Seq<u8>)
    requires
        s.len() == 3,
    ensures
        hash_bytes(hash, s) == hash_byte(hash_byte(hash_byte(hash, s[0]), s[1]), s[2]),
{
    reveal_with_fuel(hash_bytes, 4);
}

proof fn lemma_fields(hash: u64, f: Seq<Seq<u8>>, g: Seq<Seq<u8>>, i: int, k: int)
    requires
        f.len() == g.len(),
        0 <= i < f.len(),
        forall|j: int| 0 <= j < f.len() && j != i ==> #[trigger] f[j] == g[j],
        differ_within(f[i], g[i], k),
        hash_fields(hash, f) == hash_fields(hash, g),
    ensures
        f[i] == g[i],
    decreases f.len(),
{
    let n = f.len() - 1;
    let p = f.drop_last();
    let q = g.drop_last();
    let x = hash_fields(hash, p);
    let y = hash_fields(hash, q);
    lemma_same_byte(hash_bytes(x, f.last()), hash_bytes(y, g.last()), 0xff);
    if i == n {
        assert(p =~= q);
        lemma_window(x, f[i], g[i], k);
    } else {
        assert(f[n] == g[n]);
        lemma_same_bytes(x, y, f.last());
        lemma_fields(hash, p, q, i, k);
    }
}

/// Whether metadata are the same but for the total memory of one resource.
pub open spec fn same_but_memory(a: MetadataView, b: MetadataView, i: int) -> bool {
    &&& 0 <= i < a.gres.len()
    &&& b == (MetadataView {
        gres: a.gres.update(
            i,
            StaticView { memory_total_mb: b.gres[i].memory_total_mb, ..a.gres[i] },
        ),
        ..a
    })
}

proof fn lemma_places(a: Seq<StaticView>, b: Seq<StaticView>, i: int)
    requires
        a.len() == b.len(),
        0 <= i,
        forall|j: int| 0 <= j < a.len() && j != i ==> #[trigger] a[j] == b[j],
        i < a.len() ==> b[i] == (StaticView { memory_total_mb: b[i].memory_total_mb, ..a[i] }),
    ensures
        ({
            let f = all_static_fields(a);
            let g = all_static_fields(b);
            &&& f.len() == g.len() == 4 * a.len()
            &&& i < a.len() ==> f[4 * i + 3] == le_bytes(a[i].memory_total_mb as nat, 8)
            &&& i < a.len() ==> g[4 * i + 3] == le_bytes(b[i].memory_total_mb as nat, 8)
            &&& forall|j: int| 0 <= j < f.len() && j != 4 * i + 3 ==> #[trigger] f[j] == g[j]
        }),
    decreases a.len(),
{
    if a.len() > 0 {
        let n = a.len() - 1;
        let p = a.drop_last();
        let q = b.drop_last();
        lemma_places(p, q, i);
        let f = all_static_fields(a);
        let g = all_static_fields(b);
        assert(f == all_static_fields(p) + static_fields(a.last()));
        assert(g == all_static_fields(q) + static_fields(b.last()));
        if i != n {
            assert(a[n] == b[n]);
        }
        assert forall|j: int| 0 <= j < f.len() && j != 4 * i + 3 implies #[trigger] f[j] == g[j] by {
            if j < 4 * n {
                assert(f[j] == all_static_fields(p)[j]);
                assert(g[j] == all_static_fields(q)[j]);
            } else {
                assert(f[j] == static_fields(a.last())[j - 4 * n]);
                assert(g[j] == static_fields(b.last())[j - 4 * n]);
            }
        }
    }
}

/// Metadata that are the same but for one total memory figure, whose bytes
/// differ within three neighbouring places, have different hashes.
pub proof fn law_changed_memory_changes_the_hash(a: MetadataView, b: MetadataView, i: int, k: int)
    requires
        same_but_memory(a, b, i),
        a.gres[i].memory_total_mb != b.gres[i].memory_total_mb,
        differ_within(
            le_bytes(a.gres[i].memory_total_mb as nat, 8),
            le_bytes(b.gres[i].memory_total_mb as nat, 8),
            k,
        ),
    ensures
        spec_metadata_hash(a) != spec_metadata_hash(b),
{
    let f = metadata_fields(a);
    let g = metadata_fields(b);
    lemma_places(a.gres, b.gres, i);
    let at = 4 * i + 5;
    assert(f[at] == all_static_fields(a.gres)[4 * i + 3]);
    assert(g[at] == all_static_fields(b.gres)[4 * i + 3]);
    assert forall|j: int| 0 <= j < f.len() && j != at implies #[trigger] f[j] == g[j] by {
        if j >= 2 {
            assert(f[j] == all_static_fields(a.gres)[j - 2]);
            assert(g[j] == all_static_fields(b.gres)[j - 2]);
        }
    }
    if spec_metadata_hash(a) == spec_metadata_hash(b) {
        lemma_fields(0xcbf29ce484222325, f, g, at, k);
        lemma_byte_capacities();
        law_le_value_of_le_bytes(a.gres[i].memory_total_mb as nat, 8);
        law_le_value_of_le_bytes(b.gres[i].memory_total_mb as nat, 8);
    }
}

proof fn lemma_high_bytes(v: nat)
    requires
        v < 0x100_0000,
    ensures
        le_bytes(v, 8).len() == 8,
        forall|j: int| 3 <= j < 8 ==> #[trigger] le_bytes(v, 8)[j] == 0,
{
    lemma_byte_capacities();
    law_le_value_of_le_bytes(v, 8);
    reveal_with_fuel(be_bytes, 9);
    let b = be_bytes(v, 8);
    assert(v / 256 / 256 / 256 == 0);
    assert forall|j: int| 3 <= j < 8 implies #[trigger] le_bytes(v, 8)[j] == 0 by {
        assert(le_bytes(v, 8)[j] == b[7 - j]);
    }
}

/// Metadata that are the same but for one total memory figure have different
/// hashes, if both figures are below sixteen million megabytes.
pub proof fn law_memory_figures_are_told_apart(a: MetadataView, b: MetadataView, i: int)
    requires
        same_but_memory(a, b, i),
        a.gres[i].memory_total_mb != b.gres[i].memory_total_mb,
        a.gres[i].memory_total_mb < 0x100_0000,
        b.gres[i].memory_total_mb < 0x100_0000,
    ensures
        spec_metadata_hash(a) != spec_metadata_hash(b),
{
    let s = le_bytes(a.gres[i].memory_total_mb as nat, 8);
    let t = le_bytes(b.gres[i].memory_total_mb as nat, 8);
    lemma_high_bytes(a.gres[i].memory_total_mb as nat);
    lemma_high_bytes(b.gres[i].memory_total_mb as nat);
    assert forall|j: int| 0 <= j < s.len() && !(0 <= j < 0 + 3) implies #[trigger] s[j] == t[j] by {
        assert(t[j] == 0);
    }
    law_changed_memory_changes_the_hash(a, b, i, 0);
}

} // verus!
