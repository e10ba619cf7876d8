//! Collectors: what reads the resources of a node, and what a reading must
//! be like.

use vstd::prelude::*;
use crate::common::error::ErrorCode;
use crate::common::payload::{
    decode_snapshot_payload, encode_snapshot_payload, snapshot_archive, snapshot_fits,
    snapshot_room, snapshot_unarchived, ARCHIVE_LIMIT, MAX_PAYLOAD_LEN,
};
use crate::common::snapshot::{
    law_parts_rebuild_the_snapshot, metadata_of, runtime_of, snapshot_rebuilt,
};
use crate::common::snapshot::{
    clone_opt_text, gres_views, opt_text, process_views, without_commands, GresInfo, GresMemory,
    GresProcessInfo, GresUtilization, GresView, ProcessView, ServerGresSnapshot, SnapshotView,
};
use crate::text::{decimal, push_decimal, same, trim, trimmed};

verus! {

/// Where a resource comes from.
#[derive(Debug, Clone, Copy, PartialEq, Eq, Structural)]
pub enum GresResourceKind {
    Nvml,
}

/// A process on a resource, as a collector reports it.
#[derive(Debug, Clone, Copy, PartialEq, Eq, Structural)]
pub struct GresProcess {
    pub pid: u32,
    pub uid: u32,
    pub used_memory_mb: u64,
}

/// A resource, as a collector reports it.
#[derive(Debug, PartialEq, Eq)]
pub struct GresResource {
    pub kind: GresResourceKind,
    pub index: u8,
    pub name: String,
    pub uuid: Option<String>,
    pub temperature_c: Option<u32>,
    pub memory_used_mb: u64,
    pub memory_total_mb: u64,
    pub utilization_gres_percent: u8,
    pub utilization_memory_percent: u8,
    pub processes: Vec<GresProcess>,
}

/// A node, as a collector reports it.
#[derive(Debug, PartialEq, Eq)]
pub struct GresNodeSnapshot {
    pub hostname: String,
    pub driver_version: Option<String>,
    pub resources: Vec<GresResource>,
}

pub struct ResourceView {
    pub kind: GresResourceKind,
    pub index: u8,
    pub name: Seq<char>,
    pub uuid: Option<Seq<char>>,
    pub temperature_c: Option<u32>,
    pub memory_used_mb: u64,
    pub memory_total_mb: u64,
    pub utilization_gres_percent: u8,
    pub utilization_memory_percent: u8,
    pub processes: Seq<GresProcess>,
}

pub struct NodeSnapshotView {
    pub hostname: Seq<char>,
    pub driver_version: Option<Seq<char>>,
    pub resources: Seq<ResourceView>,
}

impl View for GresResource {
    type V = ResourceView;

    open spec fn view(&self) -> ResourceView {
        ResourceView {
            kind: self.kind,
            index: self.index,
            name: self.name@,
            uuid: opt_text(self.uuid),
            temperature_c: self.temperature_c,
            memory_used_mb: self.memory_used_mb,
            memory_total_mb: self.memory_total_mb,
            utilization_gres_percent: self.utilization_gres_percent,
            utilization_memory_percent: self.utilization_memory_percent,
            processes: self.processes@,
        }
    }
}

/// The models of the resources in a vector.
pub open spec fn resource_views(v: Seq<GresResource>) -> Seq<ResourceView> {
    v.map_values(|r: GresResource| r@)
}

impl View for GresNodeSnapshot {
    type V = NodeSnapshotView;

    open spec fn view(&self) -> NodeSnapshotView {
        NodeSnapshotView {
            hostname: self.hostname@,
            driver_version: opt_text(self.driver_version),
            resources: resource_views(self.resources@),
        }
    }
}

// ---------------------------------------------------------------------------
// Conversions

pub open spec fn process_of(p: ProcessView) -> GresProcess {
    GresProcess { pid: p.pid, uid: p.uid, used_memory_mb: p.used_memory_mb }
}

pub open spec fn resource_of(g: GresView) -> ResourceView {
    ResourceView {
        kind: GresResourceKind::Nvml,
        index: g.index,
        name: g.name,
        uuid: g.uuid,
        temperature_c: g.temperature_c,
        memory_used_mb: g.memory.used_mb,
        memory_total_mb: g.memory.total_mb,
        utilization_gres_percent: g.utilization.gres_percent,
        utilization_memory_percent: g.utilization.memory_percent,
        processes: g.processes.map_values(|p: ProcessView| process_of(p)),
    }
}

/// What a collector would report for a protocol snapshot.
pub open spec fn node_snapshot_of(s: SnapshotView) -> NodeSnapshotView {
    NodeSnapshotView {
        hostname: s.hostname,
        driver_version: s.driver_version,
        resources: s.gres.map_values(|g: GresView| resource_of(g)),
    }
}

pub open spec fn process_info_of(p: GresProcess) -> ProcessView {
    ProcessView { pid: p.pid, uid: p.uid, command: None, used_memory_mb: p.used_memory_mb }
}

pub open spec fn gres_info_of(r: ResourceView) -> GresView {
    GresView {
        index: r.index,
        name: r.name,
        temperature_c: r.temperature_c,
        uuid: r.uuid,
        memory: GresMemory { used_mb: r.memory_used_mb, total_mb: r.memory_total_mb },
        utilization: GresUtilization {
            gres_percent: r.utilization_gres_percent,
            memory_percent: r.utilization_memory_percent,
        },
        processes: r.processes.map_values(|p: GresProcess| process_info_of(p)),
    }
}

/// The protocol snapshot for what a collector reports.
pub open spec fn protocol_snapshot_of(s: NodeSnapshotView) -> SnapshotView {
    SnapshotView {
        hostname: s.hostname,
        driver_version: s.driver_version,
        gres: s.resources.map_values(|r: ResourceView| gres_info_of(r)),
    }
}

fn processes_from(v: &Vec<GresProcessInfo>) -> (r: Vec<GresProcess>)
    ensures
        r@ == process_views(v@).map_values(|p: ProcessView| process_of(p)),
{
    let ghost wanted = process_views(v@).map_values(|p: ProcessView| process_of(p));
    let mut out: Vec<GresProcess> = Vec::new();
    let mut i: usize = 0;
    while i < v.len()
        invariant
            i <= v@.len(),
            wanted == process_views(v@).map_values(|p: ProcessView| process_of(p)),
            out@ == wanted.take(i as int),
        decreases v@.len() - i,
    {
        out.push(
            GresProcess { pid: v[i].pid, uid: v[i].uid, used_memory_mb: v[i].used_memory_mb },
        );
        i = i + 1;
        assert(out@ =~= wanted.take(i as int));
    }
    assert(wanted.take(i as int) =~= wanted);
    out
}

fn processes_into(v: &Vec<GresProcess>) -> (r: Vec<GresProcessInfo>)
    ensures
        process_views(r@) == v@.map_values(|p: GresProcess| process_info_of(p)),
{
    let ghost wanted = v@.map_values(|p: GresProcess| process_info_of(p));
    let mut out: Vec<GresProcessInfo> = Vec::new();
    let mut i: usize = 0;
    while i < v.len()
        invariant
            i <= v@.len(),
            wanted == v@.map_values(|p: GresProcess| process_info_of(p)),
            process_views(out@) == wanted.take(i as int),
        decreases v@.len() - i,
    {
        let p = GresProcessInfo {
            pid: v[i].pid,
            uid: v[i].uid,
            command: None,
            used_memory_mb: v[i].used_memory_mb,
        };
        assert(process_views(out@.push(p)) =~= process_views(out@).push(p@));
        out.push(p);
        i = i + 1;
        assert(process_views(out@) =~= wanted.take(i as int));
    }
    assert(wanted.take(i as int) =~= wanted);
    out
}

impl GresNodeSnapshot {
    /// What a collector would report for a protocol snapshot.
    pub fn from_gres_snapshot(snapshot: ServerGresSnapshot) -> (r: GresNodeSnapshot)
        ensures
            r@ == node_snapshot_of(snapshot@),
    {
        let ghost wanted = node_snapshot_of(snapshot@).resources;
        let mut resources: Vec<GresResource> = Vec::new();
        let mut i: usize = 0;
        while i < snapshot.gres.len()
            invariant
                i <= snapshot.gres@.len(),
                wanted == node_snapshot_of(snapshot@).resources,
                resource_views(resources@) == wanted.take(i as int),
            decreases snapshot.gres@.len() - i,
        {
            let g = &snapshot.gres[i];
            let r = GresResource {
                kind: GresResourceKind::Nvml,
                index: g.index,
                name: g.name.clone(),
                uuid: clone_opt_text(&g.uuid),
                temperature_c: g.temperature_c,
                memory_used_mb: g.memory.used_mb,
                memory_total_mb: g.memory.total_mb,
                utilization_gres_percent: g.utilization.gres_percent,
                utilization_memory_percent: g.utilization.memory_percent,
                processes: processes_from(&g.processes),
            };
            assert(snapshot@.gres[i as int] == g@);
            assert(wanted[i as int] == r@);
            assert(resource_views(resources@.push(r)) =~= resource_views(resources@).push(r@));
            resources.push(r);
            i = i + 1;
            assert(resource_views(resources@) =~= wanted.take(i as int));
        }
        assert(wanted.take(i as int) =~= wanted);
        GresNodeSnapshot {
            hostname: snapshot.hostname.clone(),
            driver_version: clone_opt_text(&snapshot.driver_version),
            resources,
        }
    }

    /// The protocol snapshot for what a collector reports.
    pub fn into_gres_snapshot(self) -> (r: ServerGresSnapshot)
        ensures
            r@ == protocol_snapshot_of(self@),
    {
        let ghost wanted = protocol_snapshot_of(self@).gres;
        let mut gres: Vec<GresInfo> = Vec::new();
        let mut i: usize = 0;
        while i < self.resources.len()
            invariant
                i <= self.resources@.len(),
                wanted == protocol_snapshot_of(self@).gres,
                gres_views(gres@) == wanted.take(i as int),
            decreases self.resources@.len() - i,
        {
            let r = &self.resources[i];
            let g = GresInfo {
                index: r.index,
                name: r.name.clone(),
                temperature_c: r.temperature_c,
                uuid: clone_opt_text(&r.uuid),
                memory: GresMemory { used_mb: r.memory_used_mb, total_mb: r.memory_total_mb },
                utilization: GresUtilization {
                    gres_percent: r.utilization_gres_percent,
                    memory_percent: r.utilization_memory_percent,
                },
                processes: processes_into(&r.processes),
            };
            assert(self@.resources[i as int] == r@);
            assert(wanted[i as int] == g@);
            assert(gres_views(gres@.push(g)) =~= gres_views(gres@).push(g@));
            gres.push(g);
            i = i + 1;
            assert(gres_views(gres@) =~= wanted.take(i as int));
        }
        assert(wanted.take(i as int) =~= wanted);
        ServerGresSnapshot {
            hostname: self.hostname.clone(),
            driver_version: clone_opt_text(&self.driver_version),
            gres,
        }
    }
}

/// The way to the protocol snapshot and back loses nothing.
pub proof fn law_node_snapshot_round_trip(s: NodeSnapshotView)
    ensures
        node_snapshot_of(protocol_snapshot_of(s)) == s,
{
    let back = node_snapshot_of(protocol_snapshot_of(s));
    assert forall|i: int| 0 <= i < s.resources.len() implies back.resources[i]
        == s.resources[i] by {
        assert(back.resources[i].processes =~= s.resources[i].processes);
    }
    assert(back.resources =~= s.resources);
}

/// The way from a protocol snapshot and back loses the commands alone.
pub proof fn law_protocol_snapshot_round_trip(s: SnapshotView)
    ensures
        protocol_snapshot_of(node_snapshot_of(s)) == without_commands(s),
{
    let back = protocol_snapshot_of(node_snapshot_of(s));
    let plain = without_commands(s);
    assert forall|i: int| 0 <= i < s.gres.len() implies back.gres[i] == plain.gres[i] by {
        assert(back.gres[i].processes =~= plain.gres[i].processes);
    }
    assert(back.gres =~= plain.gres);
}

// ---------------------------------------------------------------------------
// Collectors

/// What reads the resources of a node.
pub trait GresCollector {
    fn collect_gres(&self) -> Result<GresNodeSnapshot, ErrorCode>;

    /// The reading of `collect_gres` in its protocol form, or its error.
    fn collect_gres_snapshot(&self) -> (r: Result<ServerGresSnapshot, ErrorCode>)
        default_ensures
            exists|c: Result<GresNodeSnapshot, ErrorCode>| #[trigger]
                call_ensures(Self::collect_gres, (self,), c) && match c {
                    Ok(reading) => r matches Ok(s) && s@ == protocol_snapshot_of(reading@),
                    Err(e) => r == Err::<ServerGresSnapshot, ErrorCode>(e),
                },
    {
        let c = self.collect_gres();
        assert(call_ensures(Self::collect_gres, (self,), c));
        match c {
            Ok(reading) => Ok(reading.into_gres_snapshot()),
            Err(e) => Err(e),
        }
    }
}

/// A collector that always fails, with the same error.
#[derive(Debug)]
pub struct DegradedCollector {
    code: ErrorCode,
}

impl DegradedCollector {
    pub closed spec fn spec_code(&self) -> ErrorCode {
        self.code
    }

    pub fn new(code: ErrorCode) -> (r: DegradedCollector)
        ensures
            r.spec_code() == code,
    {
        DegradedCollector { code }
    }
}

impl GresCollector for DegradedCollector {
    fn collect_gres(&self) -> (r: Result<GresNodeSnapshot, ErrorCode>)
        ensures
            r == Err::<GresNodeSnapshot, ErrorCode>(self.spec_code()),
    {
        Err(self.code)
    }
}

// ---------------------------------------------------------------------------
// The contract of a reading

/// The message about one resource.
pub open spec fn about_resource(index: u8, what: Seq<char>) -> Seq<char> {
    "resource "@ + decimal(index as nat) + what
}

/// What is wrong with a process of a resource.
pub open spec fn process_fault(r: ResourceView, p: GresProcess) -> Option<Seq<char>> {
    if p.pid == 0 {
        Some(about_resource(r.index, " process pid must not be zero"@))
    } else if p.used_memory_mb > r.memory_total_mb {
        Some(
            about_resource(
                r.index,
                " process "@ + decimal(p.pid as nat)
                    + " used memory exceeds resource total memory"@,
            ),
        )
    } else {
        None
    }
}

/// The first fault among the processes of a resource from `k` on.
pub open spec fn processes_fault(r: ResourceView, k: int) -> Option<Seq<char>>
    decreases r.processes.len() - k,
{
    if k < 0 || k >= r.processes.len() {
        None
    } else {
        match process_fault(r, r.processes[k]) {
            Some(e) => Some(e),
            None => processes_fault(r, k + 1),
        }
    }
}

/// Whether an earlier resource has the same uuid.
pub open spec fn uuid_taken(resources: Seq<ResourceView>, i: int) -> bool {
    resources[i].uuid is Some && exists|j: int|
        0 <= j < i && (#[trigger] resources[j]).uuid == resources[i].uuid
}

/// What is wrong with resource `i`.
pub open spec fn resource_fault(resources: Seq<ResourceView>, i: int) -> Option<Seq<char>> {
    let r = resources[i];
    if r.index != i {
        Some(
            "resource indices must be dense and zero-based; expected "@ + decimal(i as nat)
                + ", got "@ + decimal(r.index as nat),
        )
    } else if i == 255 {
        Some("resource index overflow"@)
    } else if trimmed(r.name).len() == 0 {
        Some(about_resource(r.index, " name must not be empty"@))
    } else if r.memory_total_mb == 0 {
        Some(about_resource(r.index, " memory_total_mb must be greater than zero"@))
    } else if r.memory_used_mb > r.memory_total_mb {
        Some(about_resource(r.index, " memory_used_mb must not exceed memory_total_mb"@))
    } else if r.utilization_gres_percent > 100 {
        Some(about_resource(r.index, " utilization_gres_percent must be <= 100"@))
    } else if r.utilization_memory_percent > 100 {
        Some(about_resource(r.index, " utilization_memory_percent must be <= 100"@))
    } else if r.uuid is Some && trimmed(r.uuid->0).len() == 0 {
        Some(about_resource(r.index, " uuid must be omitted instead of empty"@))
    } else if uuid_taken(resources, i) {
        Some("resource uuid "@ + r.uuid->0 + " is duplicated"@)
    } else {
        processes_fault(r, 0)
    }
}

/// The first fault among the resources from `i` on.
pub open spec fn resources_fault(resources: Seq<ResourceView>, i: int) -> Option<Seq<char>>
    decreases resources.len() - i,
{
    if i < 0 || i >= resources.len() {
        None
    } else {
        match resource_fault(resources, i) {
            Some(e) => Some(e),
            None => resources_fault(resources, i + 1),
        }
    }
}

/// The first fault of a reading.
pub open spec fn contract_fault(s: NodeSnapshotView) -> Option<Seq<char>> {
    if trimmed(s.hostname).len() == 0 {
        Some("hostname must not be empty"@)
    } else if s.driver_version is Some && trimmed(s.driver_version->0).len() == 0 {
        Some("driver_version must be omitted instead of empty"@)
    } else {
        resources_fault(s.resources, 0)
    }
}

fn resource_message(index: u8, what: &str) -> (r: String)
    ensures
        r@ == about_resource(index, what@),
{
    let mut out = "resource ".to_owned();
    push_decimal(&mut out, index as u64);
    out.append(what);
    out
}

fn check_processes(r: &GresResource) -> (e: Result<(), String>)
    ensures
        match e {
            Ok(()) => processes_fault(r@, 0) is None,
            Err(text) => processes_fault(r@, 0) == Some(text@),
        },
{
    let mut k: usize = 0;
    while k < r.processes.len()
        invariant
            k <= r.processes@.len(),
            processes_fault(r@, 0) == processes_fault(r@, k as int),
        decreases r.processes@.len() - k,
    {
        let p = &r.processes[k];
        if p.pid == 0 {
            return Err(resource_message(r.index, " process pid must not be zero"));
        }
        if p.used_memory_mb > r.memory_total_mb {
            let mut what = " process ".to_owned();
            push_decimal(&mut what, p.pid as u64);
            what.append(" used memory exceeds resource total memory");
            return Err(resource_message(r.index, what.as_str()));
        }
        k = k + 1;
    }
    Ok(())
}

fn uuid_seen(resources: &Vec<GresResource>, i: usize, uuid: &String) -> (r: bool)
    requires
        i < resources@.len(),
        resources@[i as int].uuid == Some(*uuid),
    ensures
        r == uuid_taken(resource_views(resources@), i as int),
{
    let ghost all = resource_views(resources@);
    let mut j: usize = 0;
    while j < i
        invariant
            j <= i < resources@.len(),
            all == resource_views(resources@),
            resources@[i as int].uuid == Some(*uuid),
            forall|k: int| 0 <= k < j ==> (#[trigger] all[k]).uuid != Some(uuid@),
        decreases i - j,
    {
        match &resources[j].uuid {
            Some(other) => {
                if same(other.as_str(), uuid.as_str()) {
                    assert(all[j as int].uuid == all[i as int].uuid);
                    return true;
                }
            },
            None => {},
        }
        assert(all[j as int].uuid != Some(uuid@));
        j = j + 1;
    }
    false
}

fn blank(s: &str) -> (r: bool)
    ensures
        r == (trimmed(s@).len() == 0),
{
    trim(s).as_str().is_empty()
}

fn check_resource(resources: &Vec<GresResource>, i: usize) -> (e: Result<(), String>)
    requires
        i < resources@.len(),
        i <= 255,
    ensures
        match e {
            Ok(()) => resource_fault(resource_views(resources@), i as int) is None,
            Err(text) => resource_fault(resource_views(resources@), i as int) == Some(text@),
        },
{
    let r = &resources[i];
    let ghost all = resource_views(resources@);
    assert(all[i as int] == r@);
    if r.index as usize != i {
        let mut out = "resource indices must be dense and zero-based; expected ".to_owned();
        push_decimal(&mut out, i as u64);
        out.append(", got ");
        push_decimal(&mut out, r.index as u64);
        return Err(out);
    }
    if i == 255 {
        return Err("resource index overflow".to_owned());
    }
    if blank(r.name.as_str()) {
        return Err(resource_message(r.index, " name must not be empty"));
    }
    if r.memory_total_mb == 0 {
        return Err(resource_message(r.index, " memory_total_mb must be greater than zero"));
    }
    if r.memory_used_mb > r.memory_total_mb {
        return Err(resource_message(r.index, " memory_used_mb must not exceed memory_total_mb"));
    }
    if r.utilization_gres_percent > 100 {
        return Err(resource_message(r.index, " utilization_gres_percent must be <= 100"));
    }
    if r.utilization_memory_percent > 100 {
        return Err(resource_message(r.index, " utilization_memory_percent must be <= 100"));
    }
    match &r.uuid {
        Some(uuid) => {
            if blank(uuid.as_str()) {
                return Err(resource_message(r.index, " uuid must be omitted instead of empty"));
            }
            if uuid_seen(resources, i, uuid) {
                let mut out = "resource uuid ".to_owned();
                out.append(uuid.as_str());
                out.append(" is duplicated");
                return Err(out);
            }
        },
        None => {},
    }
    check_processes(r)
}

/// Holds a reading against the contract of collectors: what is wrong with it
/// first, if anything.
pub fn validate_gres_node_snapshot_contract(snapshot: &GresNodeSnapshot) -> (e: Result<(), String>)
    ensures
        match e {
            Ok(()) => contract_fault(snapshot@) is None,
            Err(text) => contract_fault(snapshot@) == Some(text@),
        },
{
    if blank(snapshot.hostname.as_str()) {
        return Err("hostname must not be empty".to_owned());
    }
    match &snapshot.driver_version {
        Some(version) => {
            if blank(version.as_str()) {
                return Err("driver_version must be omitted instead of empty".to_owned());
            }
        },
        None => {},
    }
    let mut i: usize = 0;
    while i < snapshot.resources.len()
        invariant
            i <= snapshot.resources@.len(),
            i <= 255,
            contract_fault(snapshot@) == resources_fault(snapshot@.resources, i as int),
        decreases snapshot.resources@.len() - i,
    {
        match check_resource(&snapshot.resources, i) {
            Ok(()) => {},
            Err(text) => {
                return Err(text);
            },
        }
        i = i + 1;
    }
    Ok(())
}

/// Whether a resource, at its place in the list, is as a collector must
/// report it.
pub open spec fn resource_normal(resources: Seq<ResourceView>, i: int) -> bool {
    let r = resources[i];
    &&& r.index == i
    &&& trimmed(r.name).len() > 0
    &&& r.memory_total_mb > 0
    &&& r.memory_used_mb <= r.memory_total_mb
    &&& r.utilization_gres_percent <= 100
    &&& r.utilization_memory_percent <= 100
    &&& r.uuid matches Some(u) ==> trimmed(u).len() > 0
    &&& !uuid_taken(resources, i)
    &&& forall|k: int|
        0 <= k < r.processes.len() ==> (#[trigger] r.processes[k]).pid != 0
            && r.processes[k].used_memory_mb <= r.memory_total_mb
}

/// Whether a reading is as a collector must report it.
pub open spec fn reading_normal(s: NodeSnapshotView) -> bool {
    &&& trimmed(s.hostname).len() > 0
    &&& s.driver_version matches Some(v) ==> trimmed(v).len() > 0
    &&& s.resources.len() <= 255
    &&& forall|i: int| 0 <= i < s.resources.len() ==> #[trigger] resource_normal(s.resources, i)
}

proof fn lemma_processes_fault(r: ResourceView, k: int)
    requires
        0 <= k <= r.processes.len(),
    ensures
        processes_fault(r, k) is None <==> forall|j: int|
            k <= j < r.processes.len() ==> (#[trigger] r.processes[j]).pid != 0
                && r.processes[j].used_memory_mb <= r.memory_total_mb,
    decreases r.processes.len() - k,
{
    if k < r.processes.len() {
        lemma_processes_fault(r, k + 1);
        if processes_fault(r, k) is None {
            assert forall|j: int| k <= j < r.processes.len() implies (
            #[trigger] r.processes[j]).pid != 0 && r.processes[j].used_memory_mb
                <= r.memory_total_mb by {
                if j == k {
                    assert(process_fault(r, r.processes[k]) is None);
                }
            }
        } else if process_fault(r, r.processes[k]) is None {
            assert(processes_fault(r, k + 1) is Some);
        }
    }
}

proof fn lemma_resources_fault(resources: Seq<ResourceView>, i: int)
    requires
        0 <= i <= resources.len(),
    ensures
        resources_fault(resources, i) is None <==> (forall|j: int|
            i <= j < resources.len() ==> #[trigger] resource_normal(resources, j)) && (i
            == resources.len() || resources.len() <= 255),
    decreases resources.len() - i,
{
    if i < resources.len() {
        lemma_resources_fault(resources, i + 1);
        lemma_processes_fault(resources[i], 0);
        assert(resource_fault(resources, i) is None <==> resource_normal(resources, i) && i != 255);
        if resources_fault(resources, i) is None {
            assert forall|j: int| i <= j < resources.len() implies #[trigger] resource_normal(
                resources,
                j,
            ) by {
                if j == i {
                }
            }
            if i + 1 == resources.len() {
                assert(resources[i].index == i);
            }
        } else if resource_fault(resources, i) is None {
            assert(resources_fault(resources, i + 1) is Some);
        } else if resource_normal(resources, i) {
            assert(i == 255);
        }
    }
}

/// The contract accepts a reading exactly if it is as a collector must report
/// it.
pub proof fn law_contract_accepts_normal_readings(s: NodeSnapshotView)
    ensures
        contract_fault(s) is None <==> reading_normal(s),
{
    lemma_resources_fault(s.resources, 0);
}

/// A reading that the contract accepts has distinct indices, so its protocol
/// snapshot can be rebuilt from metadata and runtime part.
pub proof fn law_accepted_readings_have_distinct_indices(s: NodeSnapshotView)
    requires
        contract_fault(s) is None,
    ensures
        crate::common::snapshot::distinct_indices(protocol_snapshot_of(s)),
{
    law_contract_accepts_normal_readings(s);
    let p = protocol_snapshot_of(s);
    assert forall|i: int, j: int| 0 <= i < j < p.gres.len() implies (#[trigger] p.gres[i]).index != (
    #[trigger] p.gres[j]).index by {
        assert(resource_normal(s.resources, i));
        assert(resource_normal(s.resources, j));
    }
}

// ---------------------------------------------------------------------------
// Checking a collector

/// What a reading fails by: its contract, or a payload that cannot be made.
/// The split into metadata and runtime part and the way through a payload
/// need no check: they give the snapshot back.
pub fn check_reading(reading: GresNodeSnapshot) -> (r: Result<(), String>)
    ensures
        match contract_fault(reading@) {
            Some(e) => r matches Err(text) && text@ == e,
            None => {
                let s = protocol_snapshot_of(reading@);
                &&& snapshot_rebuilt(runtime_of(s), metadata_of(s)) == s
                &&& r is Ok <==> snapshot_room(s) <= ARCHIVE_LIMIT && (snapshot_archive(s)
                    matches Some(a) && a.len() <= MAX_PAYLOAD_LEN)
                &&& r is Ok ==> snapshot_unarchived(snapshot_archive(s)->0) == Some(s)
                &&& r matches Err(text) ==> text@ == "snapshot has no payload"@
            },
        },
{
    match validate_gres_node_snapshot_contract(&reading) {
        Ok(()) => {},
        Err(text) => {
            return Err(text);
        },
    }
    let ghost s = protocol_snapshot_of(reading@);
    proof {
        law_accepted_readings_have_distinct_indices(reading@);
        law_parts_rebuild_the_snapshot(s);
        assert forall|i: int| 0 <= i < s.gres.len() implies without_commands(s).gres[i]
            == s.gres[i] by {
            assert(without_commands(s).gres[i].processes =~= s.gres[i].processes);
        }
        assert(without_commands(s).gres =~= s.gres);
    }
    let snapshot = reading.into_gres_snapshot();
    if !snapshot_fits(&snapshot) {
        return Err("snapshot has no payload".to_owned());
    }
    match encode_snapshot_payload(&snapshot) {
        Ok(payload) => {
            assert(snapshot_archive(s) == Some(payload@));
            match decode_snapshot_payload(payload.as_slice()) {
                Ok(_) => Ok(()),
                Err(_) => Err("payload cannot be read back".to_owned()),
            }
        },
        Err(_) => Err("snapshot has no payload".to_owned()),
    }
}

/// Takes a reading and checks it.
pub fn assert_gres_collector_contract<C: GresCollector>(collector: &C) -> (r: Result<(), String>)
    ensures
        exists|c: Result<GresNodeSnapshot, ErrorCode>| #[trigger]
            call_ensures(C::collect_gres, (collector,), c) && match c {
                Err(code) => r matches Err(text) && text@ == code.spec_message(),
                Ok(reading) => match contract_fault(reading@) {
                    Some(e) => r matches Err(text) && text@ == e,
                    None => {
                        let s = protocol_snapshot_of(reading@);
                        &&& r is Ok <==> snapshot_room(s) <= ARCHIVE_LIMIT && (snapshot_archive(s)
                            matches Some(a) && a.len() <= MAX_PAYLOAD_LEN)
                        &&& r matches Err(text) ==> text@ == "snapshot has no payload"@
                    },
                },
            },
{
    let c = collector.collect_gres();
    match c {
        Ok(reading) => check_reading(reading),
        Err(code) => Err(code.message().to_owned()),
    }
}

} // verus!
