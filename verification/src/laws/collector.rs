//! Laws of collectors and of the check on their readings.

use vstd::prelude::*;
use crate::bytes::{law_le_value_of_le_bytes, le_value, lemma_byte_capacities};
use crate::common::snapshot::SnapshotView;
use crate::server::collector::{
    contract_fault, node_snapshot_of, process_fault, processes_fault, protocol_snapshot_of,
    resource_fault, resources_fault, GresResourceKind, NodeSnapshotView, ResourceView,
};
use crate::server::test_collector::{
    at_least_one, counters_at, inventory_fault, last_counters, memory_gib, memory_percent_of,
    runtime_at, runtime_file_front, runtime_file_payload, sanitized, spec_default_inventory,
    spec_deterministic_inventory, test_node_reading, test_uuid, used_at, CountersView,
    InventoryResourceView, InventoryView, RuntimeFileError,
};
use crate::text::{decimal, trimmed};

verus! {

// ---------------------------------------------------------------------------
// Readings and snapshots

/// A reading says of each resource and process what the snapshot says of it.
pub proof fn law_reading_of_a_snapshot(s: SnapshotView, i: int, k: int)
    requires
        0 <= i < s.gres.len(),
    ensures
        ({
            let n = node_snapshot_of(s);
            let r = n.resources[i];
            let g = s.gres[i];
            &&& n.hostname == s.hostname
            &&& n.driver_version == s.driver_version
            &&& n.resources.len() == s.gres.len()
            &&& r.kind == GresResourceKind::Nvml
            &&& r.index == g.index
            &&& r.name == g.name
            &&& r.uuid == g.uuid
            &&& r.temperature_c == g.temperature_c
            &&& r.memory_used_mb == g.memory.used_mb
            &&& r.memory_total_mb == g.memory.total_mb
            &&& r.utilization_gres_percent == g.utilization.gres_percent
            &&& r.utilization_memory_percent == g.utilization.memory_percent
            &&& r.processes.len() == g.processes.len()
            &&& 0 <= k < r.processes.len() ==> r.processes[k].pid == g.processes[k].pid
                && r.processes[k].uid == g.processes[k].uid && r.processes[k].used_memory_mb
                == g.processes[k].used_memory_mb
        }),
{
}

/// A snapshot says of each resource and process what the reading says of it.
pub proof fn law_snapshot_of_a_reading(n: NodeSnapshotView, i: int, k: int)
    requires
        0 <= i < n.resources.len(),
    ensures
        ({
            let s = protocol_snapshot_of(n);
            let r = n.resources[i];
            let g = s.gres[i];
            &&& s.hostname == n.hostname
            &&& s.driver_version == n.driver_version
            &&& s.gres.len() == n.resources.len()
            &&& g.index == r.index
            &&& g.name == r.name
            &&& g.uuid == r.uuid
            &&& g.temperature_c == r.temperature_c
            &&& g.memory.used_mb == r.memory_used_mb
            &&& g.memory.total_mb == r.memory_total_mb
            &&& g.utilization.gres_percent == r.utilization_gres_percent
            &&& g.utilization.memory_percent == r.utilization_memory_percent
            &&& g.processes.len() == r.processes.len()
            &&& 0 <= k < g.processes.len() ==> g.processes[k].pid == r.processes[k].pid
                && g.processes[k].uid == r.processes[k].uid && g.processes[k].used_memory_mb
                == r.processes[k].used_memory_mb && g.processes[k].command is None
        }),
{
}

// ---------------------------------------------------------------------------
// The check on readings

/// A reading without a host name, or with a blank driver, is refused as such.
pub proof fn law_refused_readings(s: NodeSnapshotView)
    ensures
        trimmed(s.hostname).len() == 0 ==> contract_fault(s) == Some("hostname must not be empty"@),
        trimmed(s.hostname).len() > 0 && s.driver_version is Some && trimmed(
            s.driver_version->0,
        ).len() == 0 ==> contract_fault(s) == Some(
            "driver_version must be omitted instead of empty"@,
        ),
{
}

proof fn lemma_first_resource(resources: Seq<ResourceView>, i: int, at: int)
    requires
        0 <= i <= at < resources.len(),
        forall|j: int| i <= j < at ==> (#[trigger] resource_fault(resources, j)) is None,
    ensures
        resources_fault(resources, i) == (match resource_fault(resources, at) {
            Some(e) => Some(e),
            None => resources_fault(resources, at + 1),
        }),
    decreases at - i,
{
    if i < at {
        assert(resource_fault(resources, i) is None);
        lemma_first_resource(resources, i + 1, at);
    }
}

/// The first resource with a fault is what a reading is refused for.
pub proof fn law_first_faulty_resource(s: NodeSnapshotView, at: int)
    requires
        trimmed(s.hostname).len() > 0,
        s.driver_version is Some ==> trimmed(s.driver_version->0).len() > 0,
        0 <= at < s.resources.len(),
        forall|j: int| 0 <= j < at ==> (#[trigger] resource_fault(s.resources, j)) is None,
        resource_fault(s.resources, at) is Some,
    ensures
        contract_fault(s) == resource_fault(s.resources, at),
{
    lemma_first_resource(s.resources, 0, at);
}

/// What a resource is refused for, the first of these that holds: an index that is
/// not its place, a blank name, no memory, more memory used than there is, a
/// utilization above 100, a blank identifier, or one that occurred before.
pub proof fn law_refused_resource(resources: Seq<ResourceView>, i: int)
    requires
        0 <= i < resources.len(),
        i < 255,
    ensures
        ({
            let r = resources[i];
            let fault = resource_fault(resources, i);
            let who = "resource "@ + decimal(i as nat);
            let place = r.index != i;
            let name = trimmed(r.name).len() == 0;
            let total = r.memory_total_mb == 0;
            let used = r.memory_used_mb > r.memory_total_mb;
            let gres = r.utilization_gres_percent > 100;
            let memory = r.utilization_memory_percent > 100;
            let uuid = r.uuid is Some && trimmed(r.uuid->0).len() == 0;
            let twice = r.uuid is Some && exists|j: int|
                0 <= j < i && (#[trigger] resources[j]).uuid == r.uuid;
            &&& place ==> fault == Some(
                "resource indices must be dense and zero-based; expected "@ + decimal(i as nat)
                    + ", got "@ + decimal(r.index as nat),
            )
            &&& !place && name ==> fault == Some(who + " name must not be empty"@)
            &&& !place && !name && total ==> fault == Some(
                who + " memory_total_mb must be greater than zero"@,
            )
            &&& !place && !name && !total && used ==> fault == Some(
                who + " memory_used_mb must not exceed memory_total_mb"@,
            )
            &&& !place && !name && !total && !used && gres ==> fault == Some(
                who + " utilization_gres_percent must be <= 100"@,
            )
            &&& !place && !name && !total && !used && !gres && memory ==> fault == Some(
                who + " utilization_memory_percent must be <= 100"@,
            )
            &&& !place && !name && !total && !used && !gres && !memory && uuid ==> fault == Some(
                who + " uuid must be omitted instead of empty"@,
            )
            &&& !place && !name && !total && !used && !gres && !memory && !uuid && twice ==> fault
                == Some("resource uuid "@ + r.uuid->0 + " is duplicated"@)
            &&& !place && !name && !total && !used && !gres && !memory && !uuid && !twice ==> fault
                == processes_fault(r, 0)
        }),
{
}

/// The first process with a fault is what a resource is refused for: a process
/// without a pid, or one that uses more memory than the resource has.
pub proof fn law_refused_process(r: ResourceView, at: int)
    requires
        0 <= at < r.processes.len(),
        forall|j: int|
            0 <= j < at ==> (#[trigger] r.processes[j]).pid != 0 && r.processes[j].used_memory_mb
                <= r.memory_total_mb,
    ensures
        ({
            let p = r.processes[at];
            let who = "resource "@ + decimal(r.index as nat);
            &&& p.pid == 0 ==> processes_fault(r, 0) == Some(who + " process pid must not be zero"@)
            &&& p.pid != 0 && p.used_memory_mb > r.memory_total_mb ==> processes_fault(r, 0)
                == Some(
                who + (" process "@ + decimal(p.pid as nat)
                    + " used memory exceeds resource total memory"@),
            )
        }),
{
    lemma_first_process(r, 0, at);
}

proof fn lemma_first_process(r: ResourceView, i: int, at: int)
    requires
        0 <= i <= at < r.processes.len(),
        forall|j: int|
            i <= j < at ==> (#[trigger] r.processes[j]).pid != 0 && r.processes[j].used_memory_mb
                <= r.memory_total_mb,
    ensures
        processes_fault(r, i) == (match process_fault(r, r.processes[at]) {
            Some(e) => Some(e),
            None => processes_fault(r, at + 1),
        }),
    decreases at - i,
{
    if i < at {
        assert(r.processes[i].pid != 0);
        lemma_first_process(r, i + 1, at);
    }
}

// ---------------------------------------------------------------------------
// Test collectors

/// Whether `n` and `m` leave the same rest.
pub open spec fn congruent(n: int, m: int, modulus: int) -> bool {
    exists|q: int| n == m + #[trigger] (q * modulus)
}

proof fn lemma_congruent(n: int, modulus: int)
    requires
        modulus > 0,
    ensures
        0 <= n % modulus < modulus,
        congruent(n, n % modulus, modulus),
{
    let q = n / modulus;
    assert(n == n % modulus + q * modulus) by (nonlinear_arith)
        requires
            q == n / modulus,
            modulus > 0,
    ;
    assert(0 <= n % modulus < modulus) by (nonlinear_arith)
        requires
            modulus > 0,
    ;
}

/// The counters of a test resource: temperatures from 28 to 82 degrees, one more
/// with each tick; utilizations from 1 to 100, 13 more with each tick; used memory
/// below the total, 257 more with each tick; all of them starting over at the end of
/// their range.
pub proof fn law_test_counters(r: InventoryResourceView, tick: u64)
    requires
        r.memory_total_mb > 2,
    ensures
        ({
            let c = counters_at(r, tick);
            let base: int = if r.index >= 13 {
                1
            } else {
                87 - 7 * r.index
            };
            &&& c.index == r.index
            &&& c.temperature_c matches Some(t) && 28 <= t <= 82 && congruent(
                tick + r.index,
                t - 28,
                55,
            )
            &&& 1 <= c.utilization_gres_percent <= 100
            &&& c.utilization_gres_percent > 1 ==> congruent(
                base + 13 * tick,
                c.utilization_gres_percent as int,
                101,
            )
            &&& 1 <= c.memory_used_mb < r.memory_total_mb
            &&& c.memory_used_mb > 1 ==> congruent(
                1234 + 512 * r.index + 257 * tick,
                c.memory_used_mb as int,
                r.memory_total_mb - 1,
            )
            &&& c.utilization_memory_percent <= 100
            &&& r.memory_total_mb < 100_000_000_000 ==> c.utilization_memory_percent
                * r.memory_total_mb <= 100 * c.memory_used_mb < (c.utilization_memory_percent + 1)
                * r.memory_total_mb
            &&& c.processes.len() == 2
            &&& c.processes[0].pid == 4242 + 10 * r.index && c.processes[1].pid == 4243 + 10
                * r.index
            &&& c.processes[0].uid == 1000 + r.index && c.processes[1].uid == 2000 + r.index
            &&& 768 + 128 * r.index <= c.processes[0].used_memory_mb < 832 + 128 * r.index
            &&& c.processes[1].used_memory_mb == 128
        }),
{
    let total = r.memory_total_mb as int;
    lemma_congruent(tick + r.index, 55);
    let base = at_least_one(87 - r.index * 7);
    lemma_congruent(base + tick * 13, 101);
    let n = 1234 + r.index * 512 + tick * 257;
    lemma_congruent(n, total - 1);
    let used = used_at(r.index, r.memory_total_mb, tick);
    assert(1 <= used < total);
    if total < 100_000_000_000 {
        let share = (used * 100) / total;
        assert(share * total <= used * 100 < (share + 1) * total) by (nonlinear_arith)
            requires
                share == (used * 100) / total,
                total > 0,
        ;
        assert(0 <= share <= 100) by (nonlinear_arith)
            requires
                share * total <= used * 100,
                used * 100 < (share + 1) * total,
                0 < used < total,
        ;
        assert(memory_percent_of(used, r.memory_total_mb) == share);
    }
    let m = memory_percent_of(used, r.memory_total_mb);
    assert(0 <= m <= 100) by {
        let scaled = if used * 100 > u64::MAX {
            u64::MAX as int
        } else {
            used * 100
        };
        assert(scaled / total >= 0) by (nonlinear_arith)
            requires
                scaled >= 0,
                total > 0,
        ;
    }
}

/// Every resource of an inventory has its counters, in order.
pub proof fn law_runtime_of_an_inventory(inventory: InventoryView, tick: u64, i: int)
    requires
        0 <= i < inventory.gres.len(),
    ensures
        runtime_at(inventory, tick).len() == inventory.gres.len(),
        runtime_at(inventory, tick)[i] == counters_at(inventory.gres[i], tick),
{
}

/// The identifier of a test resource keeps the ASCII letters and digits of the host
/// name and puts a dash in place of anything else.
pub proof fn law_sanitized(s: Seq<char>, i: int)
    requires
        0 <= i < s.len(),
    ensures
        sanitized(s).len() == s.len(),
        ('0' <= s[i] <= '9') || ('a' <= s[i] <= 'z') || ('A' <= s[i] <= 'Z') ==> sanitized(s)[i]
            == s[i],
        !(('0' <= s[i] <= '9') || ('a' <= s[i] <= 'z') || ('A' <= s[i] <= 'Z')) ==> sanitized(s)[i]
            == '-',
{
}

/// A default inventory has as many resources as asked for, numbered from zero, each
/// with 1 GiB more memory than the one before, from 16 GiB on.
pub proof fn law_default_inventory(hostname: Seq<char>, count: u8, i: int)
    requires
        0 <= i < count,
    ensures
        ({
            let v = spec_default_inventory(hostname, count);
            &&& v.hostname == hostname
            &&& v.driver_version == Some("test-driver"@)
            &&& v.gres.len() == count
            &&& v.gres[i].index == i
            &&& v.gres[i].name == "NVIDIA Test GPU "@ + decimal(i as nat)
            &&& v.gres[i].uuid == Some(test_uuid(hostname, i as u8))
            &&& v.gres[i].memory_total_mb == (16 + i) * 1024
        }),
{
}

/// An inventory from a seed has one to eight resources, and memory of one of seven
/// sizes on each, both of which the seed decides.
pub proof fn law_deterministic_inventory(seed: u64, hostname: Seq<char>, i: int)
    requires
        0 <= i <= seed % 8,
    ensures
        ({
            let v = spec_deterministic_inventory(seed, hostname);
            let k = (seed + 3 * i) % 7;
            &&& v.hostname == hostname
            &&& v.driver_version == Some("test-driver-"@ + decimal(seed as nat))
            &&& v.gres.len() == seed % 8 + 1
            &&& v.gres[i].index == i
            &&& v.gres[i].name == "NVIDIA Test GPU "@ + decimal(i as nat)
            &&& v.gres[i].uuid == Some(test_uuid(hostname, i as u8))
            &&& v.gres[i].memory_total_mb == 1024 * seq![8int, 16, 24, 36, 48, 80, 96][k]
        }),
{
    let n = seed + i * 3;
    assert(0 <= n % 7 < 7);
    assert(memory_gib(n) == seq![8int, 16, 24, 36, 48, 80, 96][n % 7]);
}

/// The counters of a resource are the last ones with its index.
pub proof fn law_last_counters(runtime: Seq<CountersView>, c: CountersView, index: u8)
    ensures
        last_counters(Seq::empty(), index) is None,
        last_counters(runtime.push(c), c.index) == Some(c),
        index != c.index ==> last_counters(runtime.push(c), index) == last_counters(runtime, index),
{
    assert(runtime.push(c).drop_last() =~= runtime);
}

/// A test reading takes what a resource is from the inventory, and its counters from
/// the runtime state, none of them above what the resource can have; without
/// counters it is idle.
pub proof fn law_test_reading(
    inventory: InventoryView,
    runtime: Seq<CountersView>,
    i: int,
    k: int,
)
    requires
        0 <= i < inventory.gres.len(),
    ensures
        ({
            let n = test_node_reading(inventory, runtime);
            let r = n.resources[i];
            let g = inventory.gres[i];
            &&& n.hostname == inventory.hostname
            &&& n.driver_version == inventory.driver_version
            &&& n.resources.len() == inventory.gres.len()
            &&& r.index == g.index
            &&& r.name == g.name
            &&& r.uuid == g.uuid
            &&& r.memory_total_mb == g.memory_total_mb
            &&& last_counters(runtime, g.index) matches Some(c) ==> {
                &&& r.temperature_c == c.temperature_c
                &&& c.memory_used_mb <= g.memory_total_mb ==> r.memory_used_mb == c.memory_used_mb
                &&& c.memory_used_mb > g.memory_total_mb ==> r.memory_used_mb == g.memory_total_mb
                &&& c.utilization_gres_percent <= 100 ==> r.utilization_gres_percent
                    == c.utilization_gres_percent
                &&& c.utilization_gres_percent > 100 ==> r.utilization_gres_percent == 100
                &&& c.utilization_memory_percent <= 100 ==> r.utilization_memory_percent
                    == c.utilization_memory_percent
                &&& c.utilization_memory_percent > 100 ==> r.utilization_memory_percent == 100
                &&& r.processes.len() == c.processes.len()
                &&& 0 <= k < c.processes.len() ==> r.processes[k].pid == c.processes[k].pid
                    && r.processes[k].uid == c.processes[k].uid && r.processes[k].used_memory_mb
                    == c.processes[k].used_memory_mb
            }
            &&& last_counters(runtime, g.index) is None ==> r.temperature_c is None
                && r.memory_used_mb == 0 && r.utilization_gres_percent == 0
                && r.utilization_memory_percent == 0 && r.processes.len() == 0
        }),
{
}

/// An inventory is refused for what its first reading is refused for.
pub proof fn law_refused_inventory(inventory: InventoryView)
    ensures
        trimmed(inventory.hostname).len() == 0 ==> inventory_fault(inventory) == Some(
            "test inventory hostname must not be empty"@,
        ),
        trimmed(inventory.hostname).len() > 0 ==> inventory_fault(inventory) == contract_fault(
            test_node_reading(inventory, runtime_at(inventory, 0)),
        ),
{
}

/// A runtime file is refused if it is shorter than the length in front, if that
/// length is zero, or if it runs past the end of the file.
pub proof fn law_refused_runtime_file(file: Seq<u8>)
    ensures
        ({
            let r = runtime_file_payload(file);
            let len = le_value(file.take(8));
            &&& file.len() < 8 ==> r == Err::<Seq<u8>, _>(RuntimeFileError::TooSmall)
            &&& file.len() >= 8 && (len == 0 || 8 + len > file.len()) ==> r == Err::<Seq<u8>, _>(
                RuntimeFileError::InvalidLength,
            )
            &&& file.len() >= 8 && 0 < len <= file.len() - 8 ==> r is Ok && r->Ok_0.len() == len
                && r->Ok_0 == file.skip(8).take(len as int)
        }),
{
    let len = le_value(file.take(8)) as int;
    if file.len() >= 8 && 0 < len <= file.len() - 8 {
        assert(file.subrange(8, 8 + len) =~= file.skip(8).take(len));
    }
}

/// A runtime file begins with the length of the state in eight bytes.
pub proof fn law_runtime_file_layout(payload: Seq<u8>)
    requires
        payload.len() <= u64::MAX,
    ensures
        runtime_file_front(payload).len() == 8 + payload.len(),
        le_value(runtime_file_front(payload).take(8)) == payload.len(),
        runtime_file_front(payload).skip(8) == payload,
{
    lemma_byte_capacities();
    law_le_value_of_le_bytes(payload.len(), 8);
    let front = runtime_file_front(payload);
    assert(front.take(8) =~= crate::bytes::le_bytes(payload.len(), 8));
    assert(front.skip(8) =~= payload);
}

} // verus!
