//! Laws of snapshots and of what is said of a node as a whole.

use vstd::prelude::*;
use vstd::utf8::encode_utf8;
use crate::bytes::le_bytes;
use crate::common::error::ErrorCode;
use crate::common::net::{addr_key, addr_text, AddrView};
use crate::common::snapshot::{
    all_static_fields, find_static, hash_byte, hash_bytes, hash_fields, metadata_fields,
    metadata_of, opt_bytes, opt_text, runtime_of, snapshot_rebuilt, spec_metadata_hash, GresView,
    MetadataView, RuntimeView, SnapshotView, StaticView,
};
use crate::server::model::{average_utilization, count_byte, total_utilization};
use crate::text::decimal;

verus! {

// ---------------------------------------------------------------------------
// Parts of a snapshot

/// The part of a snapshot that rarely changes says of the node and of each of its
/// resources what the snapshot says.
pub proof fn law_metadata_of_a_snapshot(s: SnapshotView, i: int)
    requires
        0 <= i < s.gres.len(),
    ensures
        metadata_of(s).hostname == s.hostname,
        metadata_of(s).driver_version == s.driver_version,
        metadata_of(s).gres.len() == s.gres.len(),
        metadata_of(s).gres[i].index == s.gres[i].index,
        metadata_of(s).gres[i].name == s.gres[i].name,
        metadata_of(s).gres[i].uuid == s.gres[i].uuid,
        metadata_of(s).gres[i].memory_total_mb == s.gres[i].memory.total_mb,
{
}

/// The part of a snapshot that changes says of each resource and process what the
/// snapshot says, and carries the hash of the other part.
pub proof fn law_runtime_of_a_snapshot(s: SnapshotView, i: int, k: int)
    requires
        0 <= i < s.gres.len(),
    ensures
        runtime_of(s).metadata_hash == spec_metadata_hash(metadata_of(s)),
        runtime_of(s).gres.len() == s.gres.len(),
        runtime_of(s).gres[i].index == s.gres[i].index,
        runtime_of(s).gres[i].temperature_c == s.gres[i].temperature_c,
        runtime_of(s).gres[i].memory_used_mb == s.gres[i].memory.used_mb,
        runtime_of(s).gres[i].utilization == s.gres[i].utilization,
        runtime_of(s).gres[i].processes.len() == s.gres[i].processes.len(),
        0 <= k < s.gres[i].processes.len() ==> {
            let p = runtime_of(s).gres[i].processes[k];
            let q = s.gres[i].processes[k];
            p.pid == q.pid && p.uid == q.uid && p.used_memory_mb == q.used_memory_mb
        },
{
}

/// The static part of a resource is the first one with its index.
pub proof fn law_static_part_is_found(before: Seq<StaticView>, g: StaticView, rest: Seq<StaticView>)
    requires
        forall|i: int| 0 <= i < before.len() ==> (#[trigger] before[i]).index != g.index,
    ensures
        find_static(before + (seq![g] + rest), g.index) == Some(g),
        find_static(before, g.index) is None,
    decreases before.len(),
{
    let all = before + (seq![g] + rest);
    if before.len() > 0 {
        let tail = before.drop_first();
        assert forall|i: int| 0 <= i < tail.len() implies (#[trigger] tail[i]).index != g.index by {
            assert(tail[i] == before[i + 1]);
        }
        law_static_part_is_found(tail, g, rest);
        assert(all.drop_first() =~= tail + (seq![g] + rest));
        assert(all[0] == before[0]);
    } else {
        assert(all[0] == g);
    }
}

/// A snapshot that is put together from its parts has the node's name and driver
/// from the one, what changes from the other, and of each resource what is known of
/// its index; a resource of which nothing is known is called `unknown`. Commands do
/// not travel.
pub proof fn law_rebuilt_snapshot(r: RuntimeView, m: MetadataView, i: int, k: int)
    requires
        0 <= i < r.gres.len(),
    ensures
        ({
            let s = snapshot_rebuilt(r, m);
            let g = s.gres[i];
            &&& s.hostname == m.hostname
            &&& s.driver_version == m.driver_version
            &&& s.gres.len() == r.gres.len()
            &&& g.index == r.gres[i].index
            &&& g.temperature_c == r.gres[i].temperature_c
            &&& g.memory.used_mb == r.gres[i].memory_used_mb
            &&& g.utilization == r.gres[i].utilization
            &&& g.processes.len() == r.gres[i].processes.len()
            &&& 0 <= k < g.processes.len() ==> {
                &&& g.processes[k].pid == r.gres[i].processes[k].pid
                &&& g.processes[k].uid == r.gres[i].processes[k].uid
                &&& g.processes[k].used_memory_mb == r.gres[i].processes[k].used_memory_mb
                &&& g.processes[k].command is None
            }
            &&& find_static(m.gres, g.index) matches Some(f) ==> g.name == f.name && g.uuid
                == f.uuid && g.memory.total_mb == f.memory_total_mb
            &&& find_static(m.gres, g.index) is None ==> g.name == seq![
                'u',
                'n',
                'k',
                'n',
                'o',
                'w',
                'n',
            ] && g.uuid is None && g.memory.total_mb == 0
        }),
{
    reveal_strlit("unknown");
    assert("unknown"@ =~= seq!['u', 'n', 'k', 'n', 'o', 'w', 'n']);
}

// ---------------------------------------------------------------------------
// The hash of the metadata

/// What goes into the hash, in this order: the name and the driver of the node, and
/// of each resource its index, name, identifier and total memory.
pub proof fn law_hashed_fields(m: MetadataView, i: int)
    requires
        0 <= i < m.gres.len(),
    ensures
        metadata_fields(m).len() == 2 + 4 * m.gres.len(),
        metadata_fields(m)[0] == encode_utf8(m.hostname),
        metadata_fields(m)[1] == opt_bytes(m.driver_version),
        metadata_fields(m)[2 + 4 * i] == seq![m.gres[i].index],
        metadata_fields(m)[3 + 4 * i] == encode_utf8(m.gres[i].name),
        metadata_fields(m)[4 + 4 * i] == opt_bytes(m.gres[i].uuid),
        metadata_fields(m)[5 + 4 * i] == le_bytes(m.gres[i].memory_total_mb as nat, 8),
        opt_bytes(None) == Seq::<u8>::empty(),
{
    lemma_static_fields(m.gres, i);
    let all = all_static_fields(m.gres);
    assert(metadata_fields(m)[2 + 4 * i] == all[4 * i]);
    assert(metadata_fields(m)[3 + 4 * i] == all[4 * i + 1]);
    assert(metadata_fields(m)[4 + 4 * i] == all[4 * i + 2]);
    assert(metadata_fields(m)[5 + 4 * i] == all[4 * i + 3]);
}

proof fn lemma_static_fields(gres: Seq<StaticView>, i: int)
    requires
        0 <= i < gres.len(),
    ensures
        all_static_fields(gres).len() == 4 * gres.len(),
        all_static_fields(gres)[4 * i] == seq![gres[i].index],
        all_static_fields(gres)[4 * i + 1] == encode_utf8(gres[i].name),
        all_static_fields(gres)[4 * i + 2] == opt_bytes(gres[i].uuid),
        all_static_fields(gres)[4 * i + 3] == le_bytes(gres[i].memory_total_mb as nat, 8),
    decreases gres.len(),
{
    let init = gres.drop_last();
    if gres.len() == 1 {
        assert(init =~= Seq::empty());
        assert(all_static_fields(init).len() == 0);
    } else if i < gres.len() - 1 {
        lemma_static_fields(init, i);
    } else {
        lemma_static_fields(init, 0);
    }
}

/// The hash is FNV-1a over the fields, each followed by a byte of ones.
pub proof fn law_hash_steps(h: u64, bytes: Seq<u8>, b: u8, fields: Seq<Seq<u8>>, m: MetadataView)
    ensures
        hash_bytes(h, Seq::empty()) == h,
        hash_bytes(h, bytes.push(b)) == hash_byte(hash_bytes(h, bytes), b),
        hash_byte(h, 0) == h.wrapping_mul(1099511628211),
        hash_byte(h, b) == (h ^ (b as u64)).wrapping_mul(1099511628211),
        hash_fields(h, Seq::empty()) == h,
        hash_fields(h, fields.push(bytes)) == hash_bytes(
            hash_fields(h, fields),
            bytes.push(255u8),
        ),
        spec_metadata_hash(m) == hash_fields(14695981039346656037, metadata_fields(m)),
{
    assert(bytes.push(b).drop_last() =~= bytes);
    assert(bytes.push(255u8).drop_last() =~= bytes);
    assert(fields.push(bytes).drop_last() =~= fields);
    assert(h ^ 0u64 == h) by (bit_vector);
}

// ---------------------------------------------------------------------------
// Numbers of a node

/// The number of resources in one byte: as it is up to 255, and 255 above.
pub proof fn law_count_in_a_byte(n: nat)
    ensures
        n <= 255 ==> count_byte(n) as nat == n,
        n > 255 ==> count_byte(n) == 255,
{
}

/// The average utilization is the sum over all resources by their number, rounded
/// down, up to 100; it is zero for a node without resources.
pub proof fn law_average_utilization(gres: Seq<GresView>, g: GresView)
    ensures
        average_utilization(Seq::empty()) == 0,
        total_utilization(Seq::empty()) == 0,
        total_utilization(gres.push(g)) == total_utilization(gres) + g.utilization.gres_percent,
        average_utilization(gres) <= 100,
        gres.len() > 0 && total_utilization(gres) < 100 * gres.len() ==> {
            let mean = average_utilization(gres);
            mean * gres.len() <= total_utilization(gres) < (mean + 1) * gres.len()
        },
        gres.len() > 0 && total_utilization(gres) >= 100 * gres.len() ==> average_utilization(gres)
            == 100,
{
    assert(gres.push(g).drop_last() =~= gres);
    let n = gres.len();
    if n > 0 {
        let t = total_utilization(gres);
        let q = t / n;
        assert(q * n <= t < (q + 1) * n) by (nonlinear_arith)
            requires
                q == t / n,
                n > 0,
        ;
        if t < 100 * n {
            assert(q < 100) by (nonlinear_arith)
                requires
                    q * n <= t,
                    t < 100 * n,
                    n > 0,
            ;
        } else {
            assert(q >= 100) by (nonlinear_arith)
                requires
                    t < (q + 1) * n,
                    t >= 100 * n,
                    n > 0,
            ;
        }
    }
}

// ---------------------------------------------------------------------------
// Addresses

/// An address in text: IPv4 with a colon and the port, IPv6 in square brackets, with
/// the scope behind a percent sign where there is one.
pub proof fn law_address_in_text(a: AddrView)
    ensures
        a.ipv4 ==> addr_text(a) == a.ip + seq![':'] + decimal(a.port as nat),
        !a.ipv4 && a.scope_id == 0 ==> addr_text(a) == seq!['['] + a.ip + seq![']', ':'] + decimal(
            a.port as nat,
        ),
        !a.ipv4 && a.scope_id != 0 ==> addr_text(a) == seq!['['] + a.ip + seq!['%'] + decimal(
            a.scope_id as nat,
        ) + seq![']', ':'] + decimal(a.port as nat),
        a.flowinfo == 0 ==> addr_key(a) == addr_text(a),
        a.flowinfo != 0 ==> addr_key(a) == addr_text(a) + seq!['/'] + decimal(a.flowinfo as nat),
{
    reveal_strlit(":");
    reveal_strlit("[");
    reveal_strlit("]:");
    reveal_strlit("%");
    reveal_strlit("/");
    assert(":"@ =~= seq![':']);
    assert("["@ =~= seq!['[']);
    assert("]:"@ =~= seq![']', ':']);
    assert("%"@ =~= seq!['%']);
    assert("/"@ =~= seq!['/']);
    let none = Seq::<char>::empty();
    assert(seq!['['] + a.ip + none =~= seq!['['] + a.ip);
    let scope = seq!['%'] + decimal(a.scope_id as nat);
    assert(seq!['['] + a.ip + scope =~= seq!['['] + a.ip + seq!['%'] + decimal(a.scope_id as nat));
}

/// An optional text holds the characters of the string, where there is one.
pub proof fn law_optional_text(s: String)
    ensures
        opt_text(Some(s)) == Some(s@),
        opt_text(None) is None,
{
}

// ---------------------------------------------------------------------------
// Errors

/// The numbers of the errors.
pub proof fn law_error_numbers()
    ensures
        ErrorCode::NvmlUnavailable.spec_code() == 1001,
        ErrorCode::ConfigInvalid.spec_code() == 1002,
        ErrorCode::PortExhausted.spec_code() == 1003,
        ErrorCode::MulticastFailed.spec_code() == 1004,
        ErrorCode::KcpInitFailed.spec_code() == 1005,
        ErrorCode::HeartbeatTimeout.spec_code() == 1006,
        ErrorCode::ConnectionClosed.spec_code() == 1007,
        ErrorCode::QueryTimeout.spec_code() == 1008,
        ErrorCode::InvalidFilter.spec_code() == 1009,
        ErrorCode::ProtocolVersionMismatch.spec_code() == 1010,
        ErrorCode::Internal.spec_code() == 1999,
{
}

/// The names of the errors.
pub proof fn law_error_names()
    ensures
        ErrorCode::NvmlUnavailable.spec_name() == "NvmlUnavailable"@,
        ErrorCode::ConfigInvalid.spec_name() == "ConfigInvalid"@,
        ErrorCode::PortExhausted.spec_name() == "PortExhausted"@,
        ErrorCode::MulticastFailed.spec_name() == "MulticastFailed"@,
        ErrorCode::KcpInitFailed.spec_name() == "KcpInitFailed"@,
        ErrorCode::HeartbeatTimeout.spec_name() == "HeartbeatTimeout"@,
        ErrorCode::ConnectionClosed.spec_name() == "ConnectionClosed"@,
        ErrorCode::QueryTimeout.spec_name() == "QueryTimeout"@,
        ErrorCode::InvalidFilter.spec_name() == "InvalidFilter"@,
        ErrorCode::ProtocolVersionMismatch.spec_name() == "ProtocolVersionMismatch"@,
        ErrorCode::Internal.spec_name() == "Internal"@,
{
}

/// The texts of the errors.
pub proof fn law_error_messages()
    ensures
        ErrorCode::NvmlUnavailable.spec_message() == "nvml unavailable"@,
        ErrorCode::ConfigInvalid.spec_message() == "configuration invalid"@,
        ErrorCode::PortExhausted.spec_message() == "port range exhausted"@,
        ErrorCode::MulticastFailed.spec_message() == "multicast setup failed"@,
        ErrorCode::KcpInitFailed.spec_message() == "kcp initialization failed"@,
        ErrorCode::HeartbeatTimeout.spec_message() == "heartbeat timeout"@,
        ErrorCode::ConnectionClosed.spec_message() == "connection closed"@,
        ErrorCode::QueryTimeout.spec_message() == "query timeout"@,
        ErrorCode::InvalidFilter.spec_message() == "invalid filter"@,
        ErrorCode::ProtocolVersionMismatch.spec_message() == "protocol version mismatch"@,
        ErrorCode::Internal.spec_message() == "internal error"@,
{
}

} // verus!
