//! A collector with made-up readings, for trying out a cluster without
//! devices: the resources come from an inventory, their counters from a tick.

use vstd::prelude::*;
use crate::bytes::{le_bytes, le_value, push_bytes, push_le, read_le};
use crate::bytes::{law_le_value_of_le_bytes, lemma_byte_capacities};
use crate::common::error::ErrorCode;
use crate::common::snapshot::{clone_opt_text, opt_text};
use crate::server::collector::{
    contract_fault, resource_views, validate_gres_node_snapshot_contract, GresCollector,
    GresNodeSnapshot, GresProcess, GresResource, GresResourceKind, NodeSnapshotView, ResourceView,
};
use crate::text::{chars_of, decimal, push_decimal, push_zero_padded, trim, trimmed, zero_padded};

verus! {

/// The size of a new runtime file.
pub const DEFAULT_RUNTIME_CAPACITY: usize = 65536;

/// The length of the length in front of a runtime state in its file.
pub const RUNTIME_HEADER_LEN: usize = 8;

/// How often a runtime state is written, in milliseconds.
pub const DEFAULT_REFRESH_MS: u64 = 5;

/// A made-up resource.
#[derive(Debug, PartialEq, Eq)]
pub struct TestGresInventoryResource {
    pub index: u8,
    pub name: String,
    pub uuid: Option<String>,
    pub memory_total_mb: u64,
}

/// The made-up resources of a node.
#[derive(Debug, PartialEq, Eq)]
pub struct TestGresInventory {
    pub hostname: String,
    pub driver_version: Option<String>,
    pub gres: Vec<TestGresInventoryResource>,
}

#[derive(Debug, Clone, Copy, PartialEq, Eq, Structural)]
pub struct TestGresRuntimeProcess {
    pub pid: u32,
    pub uid: u32,
    pub used_memory_mb: u64,
}

/// The made-up counters of a resource.
#[derive(Debug, PartialEq, Eq)]
pub struct TestGresRuntimeResource {
    pub index: u8,
    pub temperature_c: Option<u32>,
    pub memory_used_mb: u64,
    pub utilization_gres_percent: u8,
    pub utilization_memory_percent: u8,
    pub processes: Vec<TestGresRuntimeProcess>,
}

/// The made-up counters of a node.
#[derive(Debug, PartialEq, Eq)]
pub struct TestGresRuntimeState {
    pub gres: Vec<TestGresRuntimeResource>,
}

// ---------------------------------------------------------------------------
// Models

pub struct InventoryResourceView {
    pub index: u8,
    pub name: Seq<char>,
    pub uuid: Option<Seq<char>>,
    pub memory_total_mb: u64,
}

pub struct InventoryView {
    pub hostname: Seq<char>,
    pub driver_version: Option<Seq<char>>,
    pub gres: Seq<InventoryResourceView>,
}

pub struct CountersView {
    pub index: u8,
    pub temperature_c: Option<u32>,
    pub memory_used_mb: u64,
    pub utilization_gres_percent: u8,
    pub utilization_memory_percent: u8,
    pub processes: Seq<TestGresRuntimeProcess>,
}

impl View for TestGresInventoryResource {
    type V = InventoryResourceView;

    open spec fn view(&self) -> InventoryResourceView {
        InventoryResourceView {
            index: self.index,
            name: self.name@,
            uuid: opt_text(self.uuid),
            memory_total_mb: self.memory_total_mb,
        }
    }
}

pub open spec fn inventory_views(v: Seq<TestGresInventoryResource>) -> Seq<InventoryResourceView> {
    v.map_values(|r: TestGresInventoryResource| r@)
}

impl View for TestGresInventory {
    type V = InventoryView;

    open spec fn view(&self) -> InventoryView {
        InventoryView {
            hostname: self.hostname@,
            driver_version: opt_text(self.driver_version),
            gres: inventory_views(self.gres@),
        }
    }
}

impl View for TestGresRuntimeResource {
    type V = CountersView;

    open spec fn view(&self) -> CountersView {
        CountersView {
            index: self.index,
            temperature_c: self.temperature_c,
            memory_used_mb: self.memory_used_mb,
            utilization_gres_percent: self.utilization_gres_percent,
            utilization_memory_percent: self.utilization_memory_percent,
            processes: self.processes@,
        }
    }
}

impl View for TestGresRuntimeState {
    type V = Seq<CountersView>;

    open spec fn view(&self) -> Seq<CountersView> {
        self.gres@.map_values(|r: TestGresRuntimeResource| r@)
    }
}

impl Clone for TestGresInventoryResource {
    fn clone(&self) -> (r: TestGresInventoryResource)
        ensures
            r@ == self@,
    {
        TestGresInventoryResource {
            index: self.index,
            name: self.name.clone(),
            uuid: clone_opt_text(&self.uuid),
            memory_total_mb: self.memory_total_mb,
        }
    }
}

impl Clone for TestGresInventory {
    fn clone(&self) -> (r: TestGresInventory)
        ensures
            r@ == self@,
    {
        let mut gres: Vec<TestGresInventoryResource> = Vec::new();
        let mut i: usize = 0;
        while i < self.gres.len()
            invariant
                i <= self.gres@.len(),
                inventory_views(gres@) == self@.gres.take(i as int),
            decreases self.gres@.len() - i,
        {
            let r = self.gres[i].clone();
            assert(inventory_views(gres@.push(r)) =~= inventory_views(gres@).push(r@));
            gres.push(r);
            i = i + 1;
            assert(inventory_views(gres@) =~= self@.gres.take(i as int));
        }
        assert(self@.gres.take(i as int) =~= self@.gres);
        TestGresInventory {
            hostname: self.hostname.clone(),
            driver_version: clone_opt_text(&self.driver_version),
            gres,
        }
    }
}

// ---------------------------------------------------------------------------
// Counters for a tick

pub open spec fn at_least_one(n: int) -> int {
    if n < 1 {
        1
    } else {
        n
    }
}

/// The memory in use on a resource at a tick: it wanders below the total.
pub open spec fn used_at(index: u8, total: u64, tick: u64) -> int {
    at_least_one((1234 + index * 512 + tick * 257) % at_least_one(total - 1))
}

/// The utilization of a resource at a tick.
pub open spec fn utilization_at(index: u8, tick: u64) -> int {
    at_least_one((at_least_one(87 - index * 7) + tick * 13) % 101)
}

/// The share of the memory in use, in percent, at most 100.
pub open spec fn memory_percent_of(used: int, total: u64) -> int {
    let scaled = if used * 100 > u64::MAX {
        u64::MAX as int
    } else {
        used * 100
    };
    let share = scaled / at_least_one(total as int);
    if share > 100 {
        100
    } else {
        share
    }
}

/// The counters of a resource at a tick.
pub open spec fn counters_at(r: InventoryResourceView, tick: u64) -> CountersView {
    CountersView {
        index: r.index,
        temperature_c: Some((28 + (tick + r.index) % 55) as u32),
        memory_used_mb: used_at(r.index, r.memory_total_mb, tick) as u64,
        utilization_gres_percent: utilization_at(r.index, tick) as u8,
        utilization_memory_percent: memory_percent_of(
            used_at(r.index, r.memory_total_mb, tick),
            r.memory_total_mb,
        ) as u8,
        processes: seq![
            TestGresRuntimeProcess {
                pid: (4242 + r.index * 10) as u32,
                uid: (1000 + r.index) as u32,
                used_memory_mb: (768 + r.index * 128 + tick % 64) as u64,
            },
            TestGresRuntimeProcess {
                pid: (4243 + r.index * 10) as u32,
                uid: (2000 + r.index) as u32,
                used_memory_mb: 128,
            },
        ],
    }
}

/// Whether the arithmetic of a tick stays within 64 bits.
pub open spec fn tick_ok(tick: u64) -> bool {
    tick * 257 + 131_794 <= u64::MAX
}

fn counters_for_tick(resource: &TestGresInventoryResource, tick: u64) -> (r: TestGresRuntimeResource)
    requires
        tick_ok(tick),
    ensures
        r@ == counters_at(resource@, tick),
{
    let index: u64 = resource.index as u64;
    let total: u64 = resource.memory_total_mb;
    let max_used: u64 = if total > 2 {
        total - 1
    } else {
        1
    };
    let raw_used: u64 = (1234 + index * 512 + tick * 257) % max_used;
    let used: u64 = if raw_used < 1 {
        1
    } else {
        raw_used
    };
    let base: u64 = if index * 7 < 86 {
        87 - index * 7
    } else {
        1
    };
    let raw_util: u64 = (base + tick * 13) % 101;
    let util: u8 = if raw_util < 1 {
        1
    } else {
        raw_util as u8
    };
    let scaled: u64 = match used.checked_mul(100) {
        Some(v) => v,
        None => u64::MAX,
    };
    let divisor: u64 = if total < 1 {
        1
    } else {
        total
    };
    let share: u64 = scaled / divisor;
    let memory_percent: u8 = if share > 100 {
        100
    } else {
        share as u8
    };
    let mut processes: Vec<TestGresRuntimeProcess> = Vec::new();
    processes.push(
        TestGresRuntimeProcess {
            pid: 4242 + resource.index as u32 * 10,
            uid: 1000 + resource.index as u32,
            used_memory_mb: 768 + index * 128 + tick % 64,
        },
    );
    processes.push(
        TestGresRuntimeProcess {
            pid: 4243 + resource.index as u32 * 10,
            uid: 2000 + resource.index as u32,
            used_memory_mb: 128,
        },
    );
    let r = TestGresRuntimeResource {
        index: resource.index,
        temperature_c: Some(28 + ((tick + index) % 55) as u32),
        memory_used_mb: used,
        utilization_gres_percent: util,
        utilization_memory_percent: memory_percent,
        processes,
    };
    assert(r@.processes =~= counters_at(resource@, tick).processes);
    r
}

/// The counters of a node at a tick.
pub open spec fn runtime_at(inventory: InventoryView, tick: u64) -> Seq<CountersView> {
    inventory.gres.map_values(|r: InventoryResourceView| counters_at(r, tick))
}

/// The counters of a node at a tick.
pub fn runtime_for_tick(inventory: &TestGresInventory, tick: u64) -> (r: TestGresRuntimeState)
    requires
        tick_ok(tick),
    ensures
        r@ == runtime_at(inventory@, tick),
{
    let mut gres: Vec<TestGresRuntimeResource> = Vec::new();
    let ghost wanted = runtime_at(inventory@, tick);
    let mut i: usize = 0;
    while i < inventory.gres.len()
        invariant
            i <= inventory.gres@.len(),
            tick_ok(tick),
            wanted == runtime_at(inventory@, tick),
            gres@.len() == i,
            forall|j: int| 0 <= j < i ==> (#[trigger] gres@[j])@ == wanted[j],
        decreases inventory.gres@.len() - i,
    {
        let c = counters_for_tick(&inventory.gres[i], tick);
        assert(wanted[i as int] == c@);
        gres.push(c);
        i = i + 1;
    }
    let r = TestGresRuntimeState { gres };
    assert(r@ =~= wanted);
    r
}

/// The counters of a node before the first tick.
pub fn initial_runtime(inventory: &TestGresInventory) -> (r: TestGresRuntimeState)
    ensures
        r@ == runtime_at(inventory@, 0),
{
    runtime_for_tick(inventory, 0)
}

// ---------------------------------------------------------------------------
// Inventories

pub open spec fn is_ascii_alphanumeric(c: char) -> bool {
    ('0' <= c <= '9') || ('a' <= c <= 'z') || ('A' <= c <= 'Z')
}

/// `s` with a hyphen for each character that is no ASCII letter or digit.
pub open spec fn sanitized(s: Seq<char>) -> Seq<char> {
    s.map_values(
        |c: char|
            if is_ascii_alphanumeric(c) {
                c
            } else {
                '-'
            },
    )
}

fn sanitize_uuid_part(input: &str) -> (r: String)
    ensures
        r@ == sanitized(input@),
{
    let chars = chars_of(input);
    let mut out = String::new();
    let mut i: usize = 0;
    while i < chars.len()
        invariant
            i <= chars@.len(),
            chars@ == input@,
            out@ == sanitized(input@).take(i as int),
        decreases chars@.len() - i,
    {
        let c: char = chars[i];
        if ('0' <= c && c <= '9') || ('a' <= c && c <= 'z') || ('A' <= c && c <= 'Z') {
            out.push(c);
        } else {
            out.push('-');
        }
        i = i + 1;
        assert(out@ =~= sanitized(input@).take(i as int));
    }
    assert(sanitized(input@).take(i as int) =~= sanitized(input@));
    out
}

/// The name of a made-up resource.
pub open spec fn test_name(index: u8) -> Seq<char> {
    "NVIDIA Test GPU "@ + decimal(index as nat)
}

/// The uuid of a made-up resource.
pub open spec fn test_uuid(hostname: Seq<char>, index: u8) -> Seq<char> {
    "GRES-TEST-"@ + sanitized(hostname) + "-"@ + zero_padded(index as nat, 4)
}

fn test_resource(hostname: &str, index: u8, memory_total_mb: u64) -> (r: TestGresInventoryResource)
    ensures
        r@ == (InventoryResourceView {
            index,
            name: test_name(index),
            uuid: Some(test_uuid(hostname@, index)),
            memory_total_mb,
        }),
{
    let mut name = "NVIDIA Test GPU ".to_owned();
    push_decimal(&mut name, index as u64);
    let mut uuid = "GRES-TEST-".to_owned();
    uuid.append(sanitize_uuid_part(hostname).as_str());
    uuid.append("-");
    push_zero_padded(&mut uuid, index as u64, 4);
    TestGresInventoryResource { index, name, uuid: Some(uuid), memory_total_mb }
}

/// An inventory of `count` resources of growing memory.
pub open spec fn spec_default_inventory(hostname: Seq<char>, count: u8) -> InventoryView {
    InventoryView {
        hostname,
        driver_version: Some("test-driver"@),
        gres: Seq::new(
            count as nat,
            |i: int|
                InventoryResourceView {
                    index: i as u8,
                    name: test_name(i as u8),
                    uuid: Some(test_uuid(hostname, i as u8)),
                    memory_total_mb: (16_384 + i * 1_024) as u64,
                },
        ),
    }
}

/// An inventory of `gres_count` resources of growing memory.
pub fn default_inventory(hostname: String, gres_count: u8) -> (r: TestGresInventory)
    ensures
        r@ == spec_default_inventory(hostname@, gres_count),
{
    let mut gres: Vec<TestGresInventoryResource> = Vec::new();
    let ghost wanted = spec_default_inventory(hostname@, gres_count).gres;
    let mut i: u8 = 0;
    while i < gres_count
        invariant
            i <= gres_count,
            wanted == spec_default_inventory(hostname@, gres_count).gres,
            inventory_views(gres@) == wanted.take(i as int),
        decreases gres_count - i,
    {
        let r = test_resource(hostname.as_str(), i, 16_384 + i as u64 * 1_024);
        assert(wanted[i as int] == r@);
        assert(inventory_views(gres@.push(r)) =~= inventory_views(gres@).push(r@));
        gres.push(r);
        i = i + 1;
        assert(inventory_views(gres@) =~= wanted.take(i as int));
    }
    assert(wanted.take(i as int) =~= wanted);
    TestGresInventory { hostname, driver_version: Some("test-driver".to_owned()), gres }
}

/// A memory size in GiB for a number.
pub open spec fn memory_gib(n: int) -> int {
    let k = n % 7;
    if k == 0 {
        8
    } else if k == 1 {
        16
    } else if k == 2 {
        24
    } else if k == 3 {
        36
    } else if k == 4 {
        48
    } else if k == 5 {
        80
    } else {
        96
    }
}

/// An inventory that is determined by a seed: one to eight resources.
pub open spec fn spec_deterministic_inventory(seed: u64, hostname: Seq<char>) -> InventoryView {
    InventoryView {
        hostname,
        driver_version: Some("test-driver-"@ + decimal(seed as nat)),
        gres: Seq::new(
            (seed % 8 + 1) as nat,
            |i: int|
                InventoryResourceView {
                    index: i as u8,
                    name: test_name(i as u8),
                    uuid: Some(test_uuid(hostname, i as u8)),
                    memory_total_mb: (memory_gib(seed + i * 3) * 1024) as u64,
                },
        ),
    }
}

/// An inventory that is determined by a seed.
pub fn deterministic_inventory(seed: u64, hostname: String) -> (r: TestGresInventory)
    requires
        seed + (seed % 8) * 3 <= u64::MAX,
    ensures
        r@ == spec_deterministic_inventory(seed, hostname@),
{
    let sizes: [u64; 7] = [8, 16, 24, 36, 48, 80, 96];
    let count: u8 = (seed % 8 + 1) as u8;
    let mut gres: Vec<TestGresInventoryResource> = Vec::new();
    let ghost wanted = spec_deterministic_inventory(seed, hostname@).gres;
    let mut i: u8 = 0;
    while i < count
        invariant
            i <= count <= 8,
            count == seed % 8 + 1,
            seed + (seed % 8) * 3 <= u64::MAX,
            sizes@ == seq![8u64, 16, 24, 36, 48, 80, 96],
            wanted == spec_deterministic_inventory(seed, hostname@).gres,
            inventory_views(gres@) == wanted.take(i as int),
        decreases count - i,
    {
        let k: u64 = (seed + i as u64 * 3) % 7;
        let gib: u64 = sizes[k as usize];
        assert(gib == memory_gib(seed + i * 3));
        let r = test_resource(hostname.as_str(), i, gib * 1024);
        assert(wanted[i as int] == r@);
        assert(inventory_views(gres@.push(r)) =~= inventory_views(gres@).push(r@));
        gres.push(r);
        i = i + 1;
        assert(inventory_views(gres@) =~= wanted.take(i as int));
    }
    assert(wanted.take(i as int) =~= wanted);
    let mut version = "test-driver-".to_owned();
    push_decimal(&mut version, seed);
    TestGresInventory { hostname, driver_version: Some(version), gres }
}

// ---------------------------------------------------------------------------
// Readings

/// The last counters with the given index.
pub open spec fn last_counters(runtime: Seq<CountersView>, index: u8) -> Option<CountersView>
    decreases runtime.len(),
{
    if runtime.len() == 0 {
        None
    } else if runtime.last().index == index {
        Some(runtime.last())
    } else {
        last_counters(runtime.drop_last(), index)
    }
}

pub open spec fn at_most(n: int, max: int) -> int {
    if n > max {
        max
    } else {
        n
    }
}

/// The reading of a made-up resource. Counters beyond their range are cut.
pub open spec fn test_reading(r: InventoryResourceView, runtime: Seq<CountersView>) -> ResourceView {
    let found = last_counters(runtime, r.index);
    ResourceView {
        kind: GresResourceKind::Nvml,
        index: r.index,
        name: r.name,
        uuid: r.uuid,
        temperature_c: match found {
            Some(c) => c.temperature_c,
            None => None,
        },
        memory_used_mb: match found {
            Some(c) => at_most(c.memory_used_mb as int, r.memory_total_mb as int) as u64,
            None => 0,
        },
        memory_total_mb: r.memory_total_mb,
        utilization_gres_percent: match found {
            Some(c) => at_most(c.utilization_gres_percent as int, 100) as u8,
            None => 0,
        },
        utilization_memory_percent: match found {
            Some(c) => at_most(c.utilization_memory_percent as int, 100) as u8,
            None => 0,
        },
        processes: match found {
            Some(c) => c.processes.map_values(
                |p: TestGresRuntimeProcess|
                    GresProcess { pid: p.pid, uid: p.uid, used_memory_mb: p.used_memory_mb },
            ),
            None => Seq::empty(),
        },
    }
}

/// The reading of a made-up node.
pub open spec fn test_node_reading(
    inventory: InventoryView,
    runtime: Seq<CountersView>,
) -> NodeSnapshotView {
    NodeSnapshotView {
        hostname: inventory.hostname,
        driver_version: inventory.driver_version,
        resources: inventory.gres.map_values(|r: InventoryResourceView| test_reading(r, runtime)),
    }
}

fn find_counters(runtime: &TestGresRuntimeState, index: u8) -> (r: Option<&TestGresRuntimeResource>)
    ensures
        match r {
            Some(c) => last_counters(runtime@, index) == Some(c@),
            None => last_counters(runtime@, index) is None,
        },
{
    let mut i: usize = runtime.gres.len();
    assert(runtime@.take(i as int) =~= runtime@);
    while i > 0
        invariant
            i <= runtime.gres@.len(),
            last_counters(runtime@, index) == last_counters(runtime@.take(i as int), index),
        decreases i,
    {
        assert(runtime@.take(i as int).last() == runtime.gres@[i - 1]@);
        assert(runtime@.take(i as int).drop_last() =~= runtime@.take(i - 1));
        if runtime.gres[i - 1].index == index {
            return Some(&runtime.gres[i - 1]);
        }
        i = i - 1;
    }
    None
}

fn min_u64(a: u64, b: u64) -> (r: u64)
    ensures
        r == at_most(a as int, b as int),
{
    if a > b {
        b
    } else {
        a
    }
}

fn min_u8(a: u8, b: u8) -> (r: u8)
    ensures
        r == at_most(a as int, b as int),
{
    if a > b {
        b
    } else {
        a
    }
}

fn reading_of(r: &TestGresInventoryResource, runtime: &TestGresRuntimeState) -> (out: GresResource)
    ensures
        out@ == test_reading(r@, runtime@),
{
    let ghost wanted = test_reading(r@, runtime@);
    let mut processes: Vec<GresProcess> = Vec::new();
    let mut temperature_c: Option<u32> = None;
    let mut used: u64 = 0;
    let mut util: u8 = 0;
    let mut memory: u8 = 0;
    match find_counters(runtime, r.index) {
        Some(c) => {
            temperature_c = c.temperature_c;
            used = min_u64(c.memory_used_mb, r.memory_total_mb);
            util = min_u8(c.utilization_gres_percent, 100);
            memory = min_u8(c.utilization_memory_percent, 100);
            let mut i: usize = 0;
            while i < c.processes.len()
                invariant
                    i <= c.processes@.len(),
                    wanted.processes == c.processes@.map_values(
                        |p: TestGresRuntimeProcess|
                            GresProcess { pid: p.pid, uid: p.uid, used_memory_mb: p.used_memory_mb },
                    ),
                    processes@ == wanted.processes.take(i as int),
                decreases c.processes@.len() - i,
            {
                let p = &c.processes[i];
                processes.push(
                    GresProcess { pid: p.pid, uid: p.uid, used_memory_mb: p.used_memory_mb },
                );
                i = i + 1;
                assert(processes@ =~= wanted.processes.take(i as int));
            }
            assert(wanted.processes.take(i as int) =~= wanted.processes);
        },
        None => {
            assert(processes@ =~= wanted.processes);
        },
    }
    GresResource {
        kind: GresResourceKind::Nvml,
        index: r.index,
        name: r.name.clone(),
        uuid: clone_opt_text(&r.uuid),
        temperature_c,
        memory_used_mb: used,
        memory_total_mb: r.memory_total_mb,
        utilization_gres_percent: util,
        utilization_memory_percent: memory,
        processes,
    }
}

/// The reading of a made-up node.
pub fn snapshot_from_inventory_runtime(
    inventory: &TestGresInventory,
    runtime: &TestGresRuntimeState,
) -> (r: GresNodeSnapshot)
    ensures
        r@ == test_node_reading(inventory@, runtime@),
{
    let mut resources: Vec<GresResource> = Vec::new();
    let ghost wanted = test_node_reading(inventory@, runtime@).resources;
    let mut i: usize = 0;
    while i < inventory.gres.len()
        invariant
            i <= inventory.gres@.len(),
            wanted == test_node_reading(inventory@, runtime@).resources,
            resource_views(resources@) == wanted.take(i as int),
        decreases inventory.gres@.len() - i,
    {
        let r = reading_of(&inventory.gres[i], runtime);
        assert(wanted[i as int] == r@);
        assert(resource_views(resources@.push(r)) =~= resource_views(resources@).push(r@));
        resources.push(r);
        i = i + 1;
        assert(resource_views(resources@) =~= wanted.take(i as int));
    }
    assert(wanted.take(i as int) =~= wanted);
    GresNodeSnapshot {
        hostname: inventory.hostname.clone(),
        driver_version: clone_opt_text(&inventory.driver_version),
        resources,
    }
}

/// What is wrong with an inventory.
pub open spec fn inventory_fault(inventory: InventoryView) -> Option<Seq<char>> {
    if trimmed(inventory.hostname).len() == 0 {
        Some("test inventory hostname must not be empty"@)
    } else {
        contract_fault(test_node_reading(inventory, runtime_at(inventory, 0)))
    }
}

/// Refuses an inventory whose readings would break the contract of collectors.
pub fn validate_inventory(inventory: &TestGresInventory) -> (e: Result<(), String>)
    ensures
        match e {
            Ok(()) => inventory_fault(inventory@) is None,
            Err(text) => inventory_fault(inventory@) == Some(text@),
        },
{
    if trim(inventory.hostname.as_str()).as_str().is_empty() {
        return Err("test inventory hostname must not be empty".to_owned());
    }
    let runtime = initial_runtime(inventory);
    let snapshot = snapshot_from_inventory_runtime(inventory, &runtime);
    validate_gres_node_snapshot_contract(&snapshot)
}

/// A collector that reports an inventory with the counters of the first tick.
#[derive(Debug)]
pub struct TestGresCollector {
    inventory: TestGresInventory,
}

impl TestGresCollector {
    pub closed spec fn spec_inventory(&self) -> InventoryView {
        self.inventory@
    }

    /// One resource.
    pub fn new(hostname: &str) -> (r: TestGresCollector)
        ensures
            r.spec_inventory() == spec_default_inventory(hostname@, 1),
    {
        TestGresCollector::from_inventory(default_inventory(hostname.to_owned(), 1))
    }

    /// Several resources, at least one.
    pub fn with_gres_count(hostname: &str, gres_count: u8) -> (r: TestGresCollector)
        ensures
            r.spec_inventory() == spec_default_inventory(
                hostname@,
                if gres_count < 1 {
                    1
                } else {
                    gres_count
                },
            ),
    {
        let count: u8 = if gres_count < 1 {
            1
        } else {
            gres_count
        };
        TestGresCollector::from_inventory(default_inventory(hostname.to_owned(), count))
    }

    /// The resources of an inventory.
    pub fn from_inventory(inventory: TestGresInventory) -> (r: TestGresCollector)
        ensures
            r.spec_inventory() == inventory@,
    {
        TestGresCollector { inventory }
    }

    /// The inventory.
    pub fn inventory(&self) -> (r: &TestGresInventory)
        ensures
            r@ == self.spec_inventory(),
    {
        &self.inventory
    }
}

impl Default for TestGresCollector {
    fn default() -> (r: TestGresCollector)
        ensures
            r.spec_inventory() == spec_default_inventory("test-host"@, 1),
    {
        TestGresCollector::new("test-host")
    }
}

impl GresCollector for TestGresCollector {
    fn collect_gres(&self) -> (r: Result<GresNodeSnapshot, ErrorCode>)
        ensures
            r matches Ok(s) && s@ == test_node_reading(
                self.spec_inventory(),
                runtime_at(self.spec_inventory(), 0),
            ),
    {
        let runtime = initial_runtime(&self.inventory);
        Ok(snapshot_from_inventory_runtime(&self.inventory, &runtime))
    }
}

/// The reading of a collector whose inventory and counters come from files.
/// An inventory that was to be read anew and could not be is an error; without
/// counters the first tick counts.
pub fn reading_from_files(
    inventory: Option<&TestGresInventory>,
    runtime: Option<&TestGresRuntimeState>,
) -> (r: Result<GresNodeSnapshot, ErrorCode>)
    ensures
        match inventory {
            None => r == Err::<GresNodeSnapshot, ErrorCode>(ErrorCode::ConfigInvalid),
            Some(i) => r matches Ok(s) && s@ == test_node_reading(
                i@,
                match runtime {
                    Some(c) => c@,
                    None => runtime_at(i@, 0),
                },
            ),
        },
{
    match inventory {
        None => Err(ErrorCode::ConfigInvalid),
        Some(i) => match runtime {
            Some(c) => Ok(snapshot_from_inventory_runtime(i, c)),
            None => {
                let first = initial_runtime(i);
                Ok(snapshot_from_inventory_runtime(i, &first))
            },
        },
    }
}

// ---------------------------------------------------------------------------
// Runtime files

/// Why a runtime file holds no state.
#[derive(Debug, Clone, Copy, PartialEq, Eq, Structural)]
pub enum RuntimeFileError {
    TooSmall,
    InvalidLength,
}

/// The bytes of the state in a runtime file: behind their length, eight bytes
/// little-endian.
pub open spec fn runtime_file_payload(file: Seq<u8>) -> Result<Seq<u8>, RuntimeFileError> {
    let len = le_value(file.take(8));
    if file.len() < RUNTIME_HEADER_LEN {
        Err(RuntimeFileError::TooSmall)
    } else if len == 0 || RUNTIME_HEADER_LEN + len > file.len() {
        Err(RuntimeFileError::InvalidLength)
    } else {
        Ok(file.subrange(8, (8 + len) as int))
    }
}

/// The bytes of the state in a runtime file.
pub fn read_runtime_file(file: &[u8]) -> (r: Result<&[u8], RuntimeFileError>)
    ensures
        match r {
            Ok(p) => runtime_file_payload(file@) == Ok::<Seq<u8>, RuntimeFileError>(p@),
            Err(e) => runtime_file_payload(file@) == Err::<Seq<u8>, RuntimeFileError>(e),
        },
{
    if file.len() < RUNTIME_HEADER_LEN {
        return Err(RuntimeFileError::TooSmall);
    }
    let len: u64 = read_le(file, 0, 8);
    assert(file@.subrange(0, 8) =~= file@.take(8));
    if len == 0 || len > (file.len() - RUNTIME_HEADER_LEN) as u64 {
        return Err(RuntimeFileError::InvalidLength);
    }
    let end: usize = RUNTIME_HEADER_LEN + len as usize;
    Ok(&file[RUNTIME_HEADER_LEN..end])
}

/// The front of a runtime file that holds a state: its length and its bytes.
pub open spec fn runtime_file_front(payload: Seq<u8>) -> Seq<u8> {
    le_bytes(payload.len(), 8) + payload
}

/// What to write at the front of a runtime file of the given size; nothing if
/// the state does not fit.
pub fn write_runtime_file(capacity: usize, payload: &[u8]) -> (r: Option<Vec<u8>>)
    ensures
        match r {
            Some(front) => RUNTIME_HEADER_LEN + payload@.len() <= capacity && front@
                == runtime_file_front(payload@),
            None => RUNTIME_HEADER_LEN + payload@.len() > capacity,
        },
{
    if capacity < RUNTIME_HEADER_LEN || payload.len() > capacity - RUNTIME_HEADER_LEN {
        return None;
    }
    let mut out: Vec<u8> = Vec::new();
    push_le(&mut out, payload.len() as u64, 8);
    push_bytes(&mut out, payload);
    assert(out@ =~= runtime_file_front(payload@));
    Some(out)
}

/// A state that was written to a runtime file, with anything behind it, is
/// read back. An empty state is not: a file without a state looks the same.
pub proof fn law_runtime_file_reads_back(payload: Seq<u8>, rest: Seq<u8>)
    requires
        0 < payload.len() <= u64::MAX,
    ensures
        runtime_file_payload(runtime_file_front(payload) + rest) == Ok::<
            Seq<u8>,
            RuntimeFileError,
        >(payload),
{
    lemma_byte_capacities();
    law_le_value_of_le_bytes(payload.len(), 8);
    let file = runtime_file_front(payload) + rest;
    assert(file.take(8) =~= le_bytes(payload.len(), 8));
    assert(file.subrange(8, (8 + payload.len()) as int) =~= payload);
}

/// The readings of a deterministic inventory at the first tick satisfy the
/// contract of collectors, whatever the seed is and provided the node has a
/// name.
pub proof fn law_deterministic_inventory_is_valid(seed: u64, hostname: Seq<char>)
    requires
        trimmed(hostname).len() > 0,
    ensures
        inventory_fault(spec_deterministic_inventory(seed, hostname)) is None,
{
    let inventory = spec_deterministic_inventory(seed, hostname);
    let runtime = runtime_at(inventory, 0);
    let s = test_node_reading(inventory, runtime);
    assert(trimmed(s.driver_version->0).len() > 0) by {
        reveal_strlit("test-driver-");
        crate::text::lemma_decimal(seed as nat);
        let v = "test-driver-"@ + decimal(seed as nat);
        crate::text::lemma_trimmed_nonblank(v, 0);
    }
    assert forall|i: int| 0 <= i < s.resources.len() implies
        #[trigger] crate::server::collector::resource_normal(s.resources, i) by {
        let r = inventory.gres[i];
        lemma_last_counters(inventory, i);
        assert(s.resources[i] == test_reading(r, runtime));
        assert(trimmed(r.name).len() > 0) by {
            reveal_strlit("NVIDIA Test GPU ");
            crate::text::lemma_trimmed_nonblank(r.name, 0);
        }
        assert(trimmed(r.uuid->0).len() > 0) by {
            reveal_strlit("GRES-TEST-");
            crate::text::lemma_trimmed_nonblank(r.uuid->0, 0);
        }
        assert(!crate::server::collector::uuid_taken(s.resources, i)) by {
            assert forall|j: int| 0 <= j < i implies (#[trigger] s.resources[j]).uuid
                != s.resources[i].uuid by {
                assert(s.resources[j] == test_reading(inventory.gres[j], runtime));
                lemma_uuids_differ(hostname, j as u8, i as u8);
            }
        }
    }
    crate::server::collector::law_contract_accepts_normal_readings(s);
}

proof fn lemma_last_counters(inventory: InventoryView, i: int)
    requires
        0 <= i < inventory.gres.len() <= 255,
        forall|k: int| 0 <= k < inventory.gres.len() ==> (#[trigger] inventory.gres[k]).index == k,
    ensures
        last_counters(runtime_at(inventory, 0), i as u8) == Some(
            counters_at(inventory.gres[i], 0),
        ),
{
    lemma_last_counters_upto(inventory, i, inventory.gres.len() as int);
    let runtime = runtime_at(inventory, 0);
    assert(runtime.take(runtime.len() as int) =~= runtime);
}

proof fn lemma_last_counters_upto(inventory: InventoryView, i: int, n: int)
    requires
        0 <= i < n <= inventory.gres.len() <= 255,
        forall|k: int| 0 <= k < inventory.gres.len() ==> (#[trigger] inventory.gres[k]).index == k,
    ensures
        last_counters(runtime_at(inventory, 0).take(n), i as u8) == Some(
            counters_at(inventory.gres[i], 0),
        ),
    decreases n,
{
    let part = runtime_at(inventory, 0).take(n);
    assert(part.last() == counters_at(inventory.gres[n - 1], 0));
    assert(inventory.gres[n - 1].index == n - 1);
    if i < n - 1 {
        lemma_last_counters_upto(inventory, i, n - 1);
        assert(part.drop_last() =~= runtime_at(inventory, 0).take(n - 1));
    }
}

proof fn lemma_uuids_differ(hostname: Seq<char>, a: u8, b: u8)
    requires
        a != b,
        a < 10,
        b < 10,
    ensures
        test_uuid(hostname, a) != test_uuid(hostname, b),
{
    let x = test_uuid(hostname, a);
    let y = test_uuid(hostname, b);
    assert(x.last() == crate::text::digit(a as nat));
    assert(y.last() == crate::text::digit(b as nat));
}

} // verus!
