//! The snapshot of one node: its resources and the processes on them, and its
//! split into what rarely changes (metadata) and what changes (runtime).

use vstd::prelude::*;
use vstd::utf8::encode_utf8;
use crate::bytes::{le_bytes, push_le};

verus! {

/// The characters of an optional string.
pub open spec fn opt_text(o: Option<String>) -> Option<Seq<char>> {
    match o {
        Some(s) => Some(s@),
        None => None,
    }
}

/// A copy of an optional string.
pub fn clone_opt_text(o: &Option<String>) -> (r: Option<String>)
    ensures
        opt_text(r) == opt_text(*o),
        r is Some <==> o is Some,
{
    match o {
        Some(s) => Some(s.clone()),
        None => None,
    }
}

/// Memory counters of a resource, in MiB.
#[derive(Debug, Clone, Copy, PartialEq, Eq, Structural)]
pub struct GresMemory {
    pub used_mb: u64,
    pub total_mb: u64,
}

/// Utilization counters of a resource, in percent.
#[derive(Debug, Clone, Copy, PartialEq, Eq, Structural)]
pub struct GresUtilization {
    pub gres_percent: u8,
    pub memory_percent: u8,
}

/// A process on a resource.
#[derive(Debug, PartialEq, Eq)]
pub struct GresProcessInfo {
    pub pid: u32,
    /// The user that owns the process.
    pub uid: u32,
    /// The command, where it is known.
    pub command: Option<String>,
    pub used_memory_mb: u64,
}

/// A resource of a node.
#[derive(Debug, PartialEq, Eq)]
pub struct GresInfo {
    /// The position in the order in which the node reports its resources.
    pub index: u8,
    pub name: String,
    pub temperature_c: Option<u32>,
    pub uuid: Option<String>,
    pub memory: GresMemory,
    pub utilization: GresUtilization,
    pub processes: Vec<GresProcessInfo>,
}

/// Everything that a node reports at one time.
#[derive(Debug, PartialEq, Eq)]
pub struct ServerGresSnapshot {
    pub hostname: String,
    pub driver_version: Option<String>,
    pub gres: Vec<GresInfo>,
}

pub type ServerGpuSnapshot = ServerGresSnapshot;

pub type GpuInfo = GresInfo;

pub type GpuMemory = GresMemory;

pub type GpuUtilization = GresUtilization;

pub type GpuProcessInfo = GresProcessInfo;

/// The part of a resource that rarely changes.
#[derive(Debug, PartialEq, Eq)]
pub struct GresStaticInfo {
    pub index: u8,
    pub name: String,
    pub uuid: Option<String>,
    pub memory_total_mb: u64,
}

/// The part of a snapshot that rarely changes.
#[derive(Debug, PartialEq, Eq)]
pub struct HostMetadata {
    pub hostname: String,
    pub driver_version: Option<String>,
    pub gres: Vec<GresStaticInfo>,
}

/// A process as it travels in a runtime payload: without its command.
#[derive(Debug, Clone, Copy, PartialEq, Eq, Structural)]
pub struct GresProcessRuntimeInfo {
    pub pid: u32,
    pub uid: u32,
    pub used_memory_mb: u64,
}

/// The part of a resource that changes.
#[derive(Debug, PartialEq, Eq)]
pub struct GresRuntimeInfo {
    pub index: u8,
    pub temperature_c: Option<u32>,
    pub memory_used_mb: u64,
    pub utilization: GresUtilization,
    pub processes: Vec<GresProcessRuntimeInfo>,
}

/// The part of a snapshot that changes, and the hash of the metadata that it
/// belongs to.
#[derive(Debug, PartialEq, Eq)]
pub struct RuntimeSnapshot {
    pub metadata_hash: u64,
    pub gres: Vec<GresRuntimeInfo>,
}

// ---------------------------------------------------------------------------
// Models

pub struct ProcessView {
    pub pid: u32,
    pub uid: u32,
    pub command: Option<Seq<char>>,
    pub used_memory_mb: u64,
}

pub struct GresView {
    pub index: u8,
    pub name: Seq<char>,
    pub temperature_c: Option<u32>,
    pub uuid: Option<Seq<char>>,
    pub memory: GresMemory,
    pub utilization: GresUtilization,
    pub processes: Seq<ProcessView>,
}

pub struct SnapshotView {
    pub hostname: Seq<char>,
    pub driver_version: Option<Seq<char>>,
    pub gres: Seq<GresView>,
}

pub struct StaticView {
    pub index: u8,
    pub name: Seq<char>,
    pub uuid: Option<Seq<char>>,
    pub memory_total_mb: u64,
}

pub struct MetadataView {
    pub hostname: Seq<char>,
    pub driver_version: Option<Seq<char>>,
    pub gres: Seq<StaticView>,
}

pub struct RuntimeGresView {
    pub index: u8,
    pub temperature_c: Option<u32>,
    pub memory_used_mb: u64,
    pub utilization: GresUtilization,
    pub processes: Seq<GresProcessRuntimeInfo>,
}

pub struct RuntimeView {
    pub metadata_hash: u64,
    pub gres: Seq<RuntimeGresView>,
}

impl View for GresProcessInfo {
    type V = ProcessView;

    open spec fn view(&self) -> ProcessView {
        ProcessView {
            pid: self.pid,
            uid: self.uid,
            command: opt_text(self.command),
            used_memory_mb: self.used_memory_mb,
        }
    }
}

/// The models of the processes in a vector.
pub open spec fn process_views(v: Seq<GresProcessInfo>) -> Seq<ProcessView> {
    v.map_values(|p: GresProcessInfo| p@)
}

impl View for GresInfo {
    type V = GresView;

    open spec fn view(&self) -> GresView {
        GresView {
            index: self.index,
            name: self.name@,
            temperature_c: self.temperature_c,
            uuid: opt_text(self.uuid),
            memory: self.memory,
            utilization: self.utilization,
            processes: process_views(self.processes@),
        }
    }
}

/// The models of the resources in a vector.
pub open spec fn gres_views(v: Seq<GresInfo>) -> Seq<GresView> {
    v.map_values(|g: GresInfo| g@)
}

impl View for ServerGresSnapshot {
    type V = SnapshotView;

    open spec fn view(&self) -> SnapshotView {
        SnapshotView {
            hostname: self.hostname@,
            driver_version: opt_text(self.driver_version),
            gres: gres_views(self.gres@),
        }
    }
}

impl View for GresStaticInfo {
    type V = StaticView;

    open spec fn view(&self) -> StaticView {
        StaticView {
            index: self.index,
            name: self.name@,
            uuid: opt_text(self.uuid),
            memory_total_mb: self.memory_total_mb,
        }
    }
}

/// The models of the static records in a vector.
pub open spec fn static_views(v: Seq<GresStaticInfo>) -> Seq<StaticView> {
    v.map_values(|g: GresStaticInfo| g@)
}

impl View for HostMetadata {
    type V = MetadataView;

    open spec fn view(&self) -> MetadataView {
        MetadataView {
            hostname: self.hostname@,
            driver_version: opt_text(self.driver_version),
            gres: static_views(self.gres@),
        }
    }
}

impl View for GresRuntimeInfo {
    type V = RuntimeGresView;

    open spec fn view(&self) -> RuntimeGresView {
        RuntimeGresView {
            index: self.index,
            temperature_c: self.temperature_c,
            memory_used_mb: self.memory_used_mb,
            utilization: self.utilization,
            processes: self.processes@,
        }
    }
}

/// The models of the runtime records in a vector.
pub open spec fn runtime_views(v: Seq<GresRuntimeInfo>) -> Seq<RuntimeGresView> {
    v.map_values(|g: GresRuntimeInfo| g@)
}

impl View for RuntimeSnapshot {
    type V = RuntimeView;

    open spec fn view(&self) -> RuntimeView {
        RuntimeView { metadata_hash: self.metadata_hash, gres: runtime_views(self.gres@) }
    }
}

// ---------------------------------------------------------------------------
// Copies

impl Clone for GresProcessInfo {
    fn clone(&self) -> (r: GresProcessInfo)
        ensures
            r@ == self@,
    {
        GresProcessInfo {
            pid: self.pid,
            uid: self.uid,
            command: clone_opt_text(&self.command),
            used_memory_mb: self.used_memory_mb,
        }
    }
}

/// A copy of a list of processes.
pub fn clone_processes(v: &Vec<GresProcessInfo>) -> (r: Vec<GresProcessInfo>)
    ensures
        process_views(r@) == process_views(v@),
        r@.len() == v@.len(),
{
    let mut out: Vec<GresProcessInfo> = Vec::new();
    let mut i: usize = 0;
    while i < v.len()
        invariant
            i <= v@.len(),
            process_views(out@) == process_views(v@).take(i as int),
        decreases v@.len() - i,
    {
        let p = v[i].clone();
        assert(process_views(out@.push(p)) =~= process_views(out@).push(p@));
        out.push(p);
        i = i + 1;
        assert(process_views(out@) =~= process_views(v@).take(i as int));
    }
    assert(process_views(v@).take(i as int) =~= process_views(v@));
    assert(process_views(out@).len() == out@.len());
    assert(process_views(v@).len() == v@.len());
    out
}

impl Clone for GresInfo {
    fn clone(&self) -> (r: GresInfo)
        ensures
            r@ == self@,
    {
        GresInfo {
            index: self.index,
            name: self.name.clone(),
            temperature_c: self.temperature_c,
            uuid: clone_opt_text(&self.uuid),
            memory: self.memory,
            utilization: self.utilization,
            processes: clone_processes(&self.processes),
        }
    }
}

/// A copy of a list of resources.
pub fn clone_gres(v: &Vec<GresInfo>) -> (r: Vec<GresInfo>)
    ensures
        gres_views(r@) == gres_views(v@),
{
    let mut out: Vec<GresInfo> = Vec::new();
    let mut i: usize = 0;
    while i < v.len()
        invariant
            i <= v@.len(),
            gres_views(out@) == gres_views(v@).take(i as int),
        decreases v@.len() - i,
    {
        let g = v[i].clone();
        assert(gres_views(out@.push(g)) =~= gres_views(out@).push(g@));
        out.push(g);
        i = i + 1;
        assert(gres_views(out@) =~= gres_views(v@).take(i as int));
    }
    assert(gres_views(v@).take(i as int) =~= gres_views(v@));
    out
}

impl Clone for ServerGresSnapshot {
    fn clone(&self) -> (r: ServerGresSnapshot)
        ensures
            r@ == self@,
    {
        ServerGresSnapshot {
            hostname: self.hostname.clone(),
            driver_version: clone_opt_text(&self.driver_version),
            gres: clone_gres(&self.gres),
        }
    }
}

impl Clone for GresStaticInfo {
    fn clone(&self) -> (r: GresStaticInfo)
        ensures
            r@ == self@,
    {
        GresStaticInfo {
            index: self.index,
            name: self.name.clone(),
            uuid: clone_opt_text(&self.uuid),
            memory_total_mb: self.memory_total_mb,
        }
    }
}

impl Clone for HostMetadata {
    fn clone(&self) -> (r: HostMetadata)
        ensures
            r@ == self@,
    {
        let mut gres: Vec<GresStaticInfo> = Vec::new();
        let mut i: usize = 0;
        while i < self.gres.len()
            invariant
                i <= self.gres@.len(),
                static_views(gres@) == static_views(self.gres@).take(i as int),
            decreases self.gres@.len() - i,
        {
            let g = self.gres[i].clone();
            assert(static_views(gres@.push(g)) =~= static_views(gres@).push(g@));
            gres.push(g);
            i = i + 1;
            assert(static_views(gres@) =~= static_views(self.gres@).take(i as int));
        }
        assert(static_views(self.gres@).take(i as int) =~= static_views(self.gres@));
        HostMetadata {
            hostname: self.hostname.clone(),
            driver_version: clone_opt_text(&self.driver_version),
            gres,
        }
    }
}

impl Clone for GresRuntimeInfo {
    fn clone(&self) -> (r: GresRuntimeInfo)
        ensures
            r@ == self@,
    {
        let mut processes: Vec<GresProcessRuntimeInfo> = Vec::new();
        let mut i: usize = 0;
        while i < self.processes.len()
            invariant
                i <= self.processes@.len(),
                processes@ == self.processes@.take(i as int),
            decreases self.processes@.len() - i,
        {
            processes.push(self.processes[i]);
            i = i + 1;
            assert(processes@ =~= self.processes@.take(i as int));
        }
        assert(self.processes@.take(i as int) =~= self.processes@);
        GresRuntimeInfo {
            index: self.index,
            temperature_c: self.temperature_c,
            memory_used_mb: self.memory_used_mb,
            utilization: self.utilization,
            processes,
        }
    }
}

impl Clone for RuntimeSnapshot {
    fn clone(&self) -> (r: RuntimeSnapshot)
        ensures
            r@ == self@,
    {
        let mut gres: Vec<GresRuntimeInfo> = Vec::new();
        let mut i: usize = 0;
        while i < self.gres.len()
            invariant
                i <= self.gres@.len(),
                runtime_views(gres@) == runtime_views(self.gres@).take(i as int),
            decreases self.gres@.len() - i,
        {
            let g = self.gres[i].clone();
            assert(runtime_views(gres@.push(g)) =~= runtime_views(gres@).push(g@));
            gres.push(g);
            i = i + 1;
            assert(runtime_views(gres@) =~= runtime_views(self.gres@).take(i as int));
        }
        assert(runtime_views(self.gres@).take(i as int) =~= runtime_views(self.gres@));
        RuntimeSnapshot { metadata_hash: self.metadata_hash, gres }
    }
}

// ---------------------------------------------------------------------------
// The hash of metadata

/// One step of the 64-bit FNV-1a hash.
pub open spec fn hash_byte(hash: u64, byte: u8) -> u64 {
    (hash ^ (byte as u64)).wrapping_mul(0x100000001b3)
}

/// The hash after the bytes `s`.
pub open spec fn hash_bytes(hash: u64, s: Seq<u8>) -> u64
    decreases s.len(),
{
    if s.len() == 0 {
        hash
    } else {
        hash_byte(hash_bytes(hash, s.drop_last()), s.last())
    }
}

/// The hash after the fields, each closed by a byte 255.
pub open spec fn hash_fields(hash: u64, fields: Seq<Seq<u8>>) -> u64
    decreases fields.len(),
{
    if fields.len() == 0 {
        hash
    } else {
        hash_byte(hash_bytes(hash_fields(hash, fields.drop_last()), fields.last()), 0xff)
    }
}

/// The bytes of an optional text; none for an absent one.
pub open spec fn opt_bytes(o: Option<Seq<char>>) -> Seq<u8> {
    match o {
        Some(s) => encode_utf8(s),
        None => Seq::empty(),
    }
}

/// The hashed fields of a static record.
pub open spec fn static_fields(g: StaticView) -> Seq<Seq<u8>> {
    seq![
        seq![g.index],
        encode_utf8(g.name),
        opt_bytes(g.uuid),
        le_bytes(g.memory_total_mb as nat, 8),
    ]
}

/// The hashed fields of the static records, in order.
pub open spec fn all_static_fields(gres: Seq<StaticView>) -> Seq<Seq<u8>>
    decreases gres.len(),
{
    if gres.len() == 0 {
        Seq::empty()
    } else {
        all_static_fields(gres.drop_last()) + static_fields(gres.last())
    }
}

/// The hashed fields of metadata, in order.
pub open spec fn metadata_fields(m: MetadataView) -> Seq<Seq<u8>> {
    seq![encode_utf8(m.hostname), opt_bytes(m.driver_version)] + all_static_fields(m.gres)
}

/// The hash of metadata.
pub open spec fn spec_metadata_hash(m: MetadataView) -> u64 {
    hash_fields(0xcbf29ce484222325, metadata_fields(m))
}

proof fn lemma_hash_fields_push(hash: u64, fields: Seq<Seq<u8>>, field: Seq<u8>)
    ensures
        hash_fields(hash, fields.push(field)) == hash_byte(
            hash_bytes(hash_fields(hash, fields), field),
            0xff,
        ),
{
    assert(fields.push(field).drop_last() =~= fields);
}

fn write_field(
    hash: u64,
    bytes: &[u8],
    Ghost(seed): Ghost<u64>,
    Ghost(fields): Ghost<Seq<Seq<u8>>>,
) -> (r: u64)
    requires
        hash == hash_fields(seed, fields),
    ensures
        r == hash_fields(seed, fields.push(bytes@)),
{
    let mut h: u64 = hash;
    let mut i: usize = 0;
    assert(bytes@.take(0) =~= Seq::empty());
    while i < bytes.len()
        invariant
            i <= bytes@.len(),
            h == hash_bytes(hash, bytes@.take(i as int)),
        decreases bytes@.len() - i,
    {
        proof {
            let next = bytes@.take(i + 1);
            assert(next.drop_last() =~= bytes@.take(i as int));
            assert(next.last() == bytes@[i as int]);
        }
        h = (h ^ (bytes[i] as u64)).wrapping_mul(0x100000001b3);
        i = i + 1;
    }
    assert(bytes@.take(i as int) =~= bytes@);
    proof {
        lemma_hash_fields_push(seed, fields, bytes@);
    }
    (h ^ 0xffu64).wrapping_mul(0x100000001b3)
}

// ---------------------------------------------------------------------------
// The split of a snapshot

/// The static part of a resource.
pub open spec fn static_of(g: GresView) -> StaticView {
    StaticView { index: g.index, name: g.name, uuid: g.uuid, memory_total_mb: g.memory.total_mb }
}

/// The metadata of a snapshot.
pub open spec fn metadata_of(s: SnapshotView) -> MetadataView {
    MetadataView {
        hostname: s.hostname,
        driver_version: s.driver_version,
        gres: s.gres.map_values(|g: GresView| static_of(g)),
    }
}

/// A process without its command.
pub open spec fn process_runtime_of(p: ProcessView) -> GresProcessRuntimeInfo {
    GresProcessRuntimeInfo { pid: p.pid, uid: p.uid, used_memory_mb: p.used_memory_mb }
}

/// The changing part of a resource.
pub open spec fn runtime_gres_of(g: GresView) -> RuntimeGresView {
    RuntimeGresView {
        index: g.index,
        temperature_c: g.temperature_c,
        memory_used_mb: g.memory.used_mb,
        utilization: g.utilization,
        processes: g.processes.map_values(|p: ProcessView| process_runtime_of(p)),
    }
}

/// The runtime part of a snapshot.
pub open spec fn runtime_of(s: SnapshotView) -> RuntimeView {
    RuntimeView {
        metadata_hash: spec_metadata_hash(metadata_of(s)),
        gres: s.gres.map_values(|g: GresView| runtime_gres_of(g)),
    }
}

/// The first static record with the given index.
pub open spec fn find_static(gres: Seq<StaticView>, index: u8) -> Option<StaticView>
    decreases gres.len(),
{
    if gres.len() == 0 {
        None
    } else if gres[0].index == index {
        Some(gres[0])
    } else {
        find_static(gres.drop_first(), index)
    }
}

/// A process as it comes out of a runtime payload.
pub open spec fn process_rebuilt(p: GresProcessRuntimeInfo) -> ProcessView {
    ProcessView { pid: p.pid, uid: p.uid, command: None, used_memory_mb: p.used_memory_mb }
}

/// A resource put together from its two parts. Without a static part the name
/// is `unknown` and the total memory is zero.
pub open spec fn gres_rebuilt(g: RuntimeGresView, m: MetadataView) -> GresView {
    let found = find_static(m.gres, g.index);
    GresView {
        index: g.index,
        name: match found {
            Some(s) => s.name,
            None => "unknown"@,
        },
        temperature_c: g.temperature_c,
        uuid: match found {
            Some(s) => s.uuid,
            None => None,
        },
        memory: GresMemory {
            used_mb: g.memory_used_mb,
            total_mb: match found {
                Some(s) => s.memory_total_mb,
                None => 0,
            },
        },
        utilization: g.utilization,
        processes: g.processes.map_values(|p: GresProcessRuntimeInfo| process_rebuilt(p)),
    }
}

/// A snapshot put together from its two parts.
pub open spec fn snapshot_rebuilt(r: RuntimeView, m: MetadataView) -> SnapshotView {
    SnapshotView {
        hostname: m.hostname,
        driver_version: m.driver_version,
        gres: r.gres.map_values(|g: RuntimeGresView| gres_rebuilt(g, m)),
    }
}

/// A snapshot without the commands of its processes.
pub open spec fn without_commands(s: SnapshotView) -> SnapshotView {
    SnapshotView {
        gres: s.gres.map_values(
            |g: GresView|
                GresView {
                    processes: g.processes.map_values(
                        |p: ProcessView| ProcessView { command: None, ..p },
                    ),
                    ..g
                },
        ),
        ..s
    }
}

/// Whether no two resources of a snapshot have the same index.
pub open spec fn distinct_indices(s: SnapshotView) -> bool {
    forall|i: int, j: int|
        0 <= i < j < s.gres.len() ==> (#[trigger] s.gres[i]).index != (#[trigger] s.gres[j]).index
}

impl HostMetadata {
    /// The metadata of a snapshot.
    pub fn from_snapshot(snapshot: &ServerGresSnapshot) -> (r: HostMetadata)
        ensures
            r@ == metadata_of(snapshot@),
    {
        let mut gres: Vec<GresStaticInfo> = Vec::new();
        let mut i: usize = 0;
        while i < snapshot.gres.len()
            invariant
                i <= snapshot.gres@.len(),
                static_views(gres@) == metadata_of(snapshot@).gres.take(i as int),
            decreases snapshot.gres@.len() - i,
        {
            let g = GresStaticInfo {
                index: snapshot.gres[i].index,
                name: snapshot.gres[i].name.clone(),
                uuid: clone_opt_text(&snapshot.gres[i].uuid),
                memory_total_mb: snapshot.gres[i].memory.total_mb,
            };
            assert(g@ == static_of(snapshot@.gres[i as int]));
            assert(static_views(gres@.push(g)) =~= static_views(gres@).push(g@));
            gres.push(g);
            i = i + 1;
            assert(static_views(gres@) =~= metadata_of(snapshot@).gres.take(i as int));
        }
        assert(metadata_of(snapshot@).gres.take(i as int) =~= metadata_of(snapshot@).gres);
        HostMetadata {
            hostname: snapshot.hostname.clone(),
            driver_version: clone_opt_text(&snapshot.driver_version),
            gres,
        }
    }

    /// A hash that tells one metadata from another.
    pub fn metadata_hash(&self) -> (r: u64)
        ensures
            r == spec_metadata_hash(self@),
    {
        let ghost seed: u64 = 0xcbf29ce484222325;
        let mut hash: u64 = 0xcbf29ce484222325;
        let empty: Vec<u8> = Vec::new();
        let ghost none: Seq<Seq<u8>> = Seq::empty();
        hash = write_field(hash, self.hostname.as_str().as_bytes(), Ghost(seed), Ghost(none));
        let ghost mut fields: Seq<Seq<u8>> = none.push(encode_utf8(self.hostname@));
        match &self.driver_version {
            Some(v) => {
                hash = write_field(hash, v.as_str().as_bytes(), Ghost(seed), Ghost(fields));
            },
            None => {
                hash = write_field(hash, empty.as_slice(), Ghost(seed), Ghost(fields));
            },
        }
        proof {
            fields = fields.push(opt_bytes(self@.driver_version));
            assert(self@.gres.take(0) =~= Seq::empty());
            assert(fields =~= seq![encode_utf8(self@.hostname), opt_bytes(self@.driver_version)]
                + all_static_fields(self@.gres.take(0)));
        }
        let mut i: usize = 0;
        while i < self.gres.len()
            invariant
                i <= self.gres@.len(),
                empty@.len() == 0,
                fields == seq![encode_utf8(self@.hostname), opt_bytes(self@.driver_version)]
                    + all_static_fields(self@.gres.take(i as int)),
                hash == hash_fields(seed, fields),
            decreases self.gres@.len() - i,
        {
            let g = &self.gres[i];
            let ghost before = fields;
            let index: [u8; 1] = [g.index];
            hash = write_field(hash, &index, Ghost(seed), Ghost(fields));
            proof {
                assert(index@ =~= seq![g.index]);
                fields = fields.push(seq![g.index]);
            }
            hash = write_field(hash, g.name.as_str().as_bytes(), Ghost(seed), Ghost(fields));
            proof {
                fields = fields.push(encode_utf8(g.name@));
            }
            match &g.uuid {
                Some(u) => {
                    hash = write_field(hash, u.as_str().as_bytes(), Ghost(seed), Ghost(fields));
                },
                None => {
                    hash = write_field(hash, empty.as_slice(), Ghost(seed), Ghost(fields));
                    assert(empty@ =~= Seq::<u8>::empty());
                },
            }
            proof {
                fields = fields.push(opt_bytes(g@.uuid));
            }
            let mut total: Vec<u8> = Vec::new();
            push_le(&mut total, g.memory_total_mb, 8);
            assert(total@ =~= le_bytes(g.memory_total_mb as nat, 8));
            hash = write_field(hash, total.as_slice(), Ghost(seed), Ghost(fields));
            proof {
                fields = fields.push(total@);
                assert(self@.gres[i as int] == g@);
                assert(self@.gres.take(i + 1).drop_last() =~= self@.gres.take(i as int));
                assert(self@.gres.take(i + 1).last() == g@);
                assert(fields =~= before + static_fields(g@));
                assert(fields =~= seq![
                    encode_utf8(self@.hostname),
                    opt_bytes(self@.driver_version),
                ] + all_static_fields(self@.gres.take(i + 1)));
            }
            i = i + 1;
        }
        assert(self@.gres.take(i as int) =~= self@.gres);
        hash
    }

    /// The first static record with the given index.
    fn find(&self, index: u8) -> (r: Option<&GresStaticInfo>)
        ensures
            match r {
                Some(g) => find_static(self@.gres, index) == Some(g@),
                None => find_static(self@.gres, index) is None,
            },
    {
        let mut i: usize = 0;
        assert(self@.gres.skip(0) =~= self@.gres);
        while i < self.gres.len()
            invariant
                i <= self.gres@.len(),
                find_static(self@.gres, index) == find_static(self@.gres.skip(i as int), index),
            decreases self.gres@.len() - i,
        {
            assert(self@.gres.skip(i as int)[0] == self.gres@[i as int]@);
            if self.gres[i].index == index {
                return Some(&self.gres[i]);
            }
            assert(self@.gres.skip(i as int).drop_first() =~= self@.gres.skip(i + 1));
            i = i + 1;
        }
        None
    }
}

impl RuntimeSnapshot {
    /// The runtime part of a snapshot.
    pub fn from_snapshot(snapshot: &ServerGresSnapshot) -> (r: RuntimeSnapshot)
        ensures
            r@ == runtime_of(snapshot@),
    {
        let metadata = HostMetadata::from_snapshot(snapshot);
        let mut gres: Vec<GresRuntimeInfo> = Vec::new();
        let mut i: usize = 0;
        while i < snapshot.gres.len()
            invariant
                i <= snapshot.gres@.len(),
                runtime_views(gres@) == runtime_of(snapshot@).gres.take(i as int),
            decreases snapshot.gres@.len() - i,
        {
            let from = &snapshot.gres[i];
            let mut processes: Vec<GresProcessRuntimeInfo> = Vec::new();
            let ghost wanted = runtime_gres_of(from@).processes;
            let mut j: usize = 0;
            while j < from.processes.len()
                invariant
                    j <= from.processes@.len(),
                    wanted == runtime_gres_of(from@).processes,
                    processes@ == wanted.take(j as int),
                decreases from.processes@.len() - j,
            {
                let p = &from.processes[j];
                processes.push(
                    GresProcessRuntimeInfo {
                        pid: p.pid,
                        uid: p.uid,
                        used_memory_mb: p.used_memory_mb,
                    },
                );
                j = j + 1;
                assert(processes@ =~= wanted.take(j as int));
            }
            assert(wanted.take(j as int) =~= wanted);
            let g = GresRuntimeInfo {
                index: from.index,
                temperature_c: from.temperature_c,
                memory_used_mb: from.memory.used_mb,
                utilization: from.utilization,
                processes,
            };
            assert(snapshot@.gres[i as int] == from@);
            assert(g@ == runtime_gres_of(from@));
            assert(runtime_views(gres@.push(g)) =~= runtime_views(gres@).push(g@));
            gres.push(g);
            i = i + 1;
            assert(runtime_views(gres@) =~= runtime_of(snapshot@).gres.take(i as int));
        }
        assert(runtime_of(snapshot@).gres.take(i as int) =~= runtime_of(snapshot@).gres);
        RuntimeSnapshot { metadata_hash: metadata.metadata_hash(), gres }
    }

    /// The snapshot that this runtime part and the given metadata make up.
    pub fn to_snapshot(&self, metadata: &HostMetadata) -> (r: ServerGresSnapshot)
        ensures
            r@ == snapshot_rebuilt(self@, metadata@),
    {
        let mut gres: Vec<GresInfo> = Vec::new();
        let mut i: usize = 0;
        while i < self.gres.len()
            invariant
                i <= self.gres@.len(),
                gres_views(gres@) == snapshot_rebuilt(self@, metadata@).gres.take(i as int),
            decreases self.gres@.len() - i,
        {
            let runtime = &self.gres[i];
            let mut processes: Vec<GresProcessInfo> = Vec::new();
            let ghost wanted = gres_rebuilt(runtime@, metadata@).processes;
            let mut j: usize = 0;
            while j < runtime.processes.len()
                invariant
                    j <= runtime.processes@.len(),
                    wanted == gres_rebuilt(runtime@, metadata@).processes,
                    process_views(processes@) == wanted.take(j as int),
                decreases runtime.processes@.len() - j,
            {
                let p = &runtime.processes[j];
                let q = GresProcessInfo {
                    pid: p.pid,
                    uid: p.uid,
                    command: None,
                    used_memory_mb: p.used_memory_mb,
                };
                assert(process_views(processes@.push(q)) =~= process_views(processes@).push(q@));
                processes.push(q);
                j = j + 1;
                assert(process_views(processes@) =~= wanted.take(j as int));
            }
            assert(wanted.take(j as int) =~= wanted);
            let found = metadata.find(runtime.index);
            let name = match found {
                Some(s) => s.name.clone(),
                None => "unknown".to_owned(),
            };
            let uuid = match found {
                Some(s) => clone_opt_text(&s.uuid),
                None => None,
            };
            let total_mb: u64 = match found {
                Some(s) => s.memory_total_mb,
                None => 0,
            };
            let g = GresInfo {
                index: runtime.index,
                name,
                temperature_c: runtime.temperature_c,
                uuid,
                memory: GresMemory { used_mb: runtime.memory_used_mb, total_mb },
                utilization: runtime.utilization,
                processes,
            };
            assert(self@.gres[i as int] == runtime@);
            assert(g@ == gres_rebuilt(runtime@, metadata@));
            assert(gres_views(gres@.push(g)) =~= gres_views(gres@).push(g@));
            gres.push(g);
            i = i + 1;
            assert(gres_views(gres@) =~= snapshot_rebuilt(self@, metadata@).gres.take(i as int));
        }
        assert(snapshot_rebuilt(self@, metadata@).gres.take(i as int) =~= snapshot_rebuilt(
            self@,
            metadata@,
        ).gres);
        ServerGresSnapshot {
            hostname: metadata.hostname.clone(),
            driver_version: clone_opt_text(&metadata.driver_version),
            gres,
        }
    }
}

// ---------------------------------------------------------------------------
// Laws

/// Two snapshots that agree on the static fields have the same metadata and
/// the same hash, whatever their counters and processes are.
pub proof fn law_hash_tracks_static_fields_only(a: SnapshotView, b: SnapshotView)
    requires
        a.hostname == b.hostname,
        a.driver_version == b.driver_version,
        a.gres.len() == b.gres.len(),
        forall|i: int|
            0 <= i < a.gres.len() ==> {
                &&& (#[trigger] a.gres[i]).index == b.gres[i].index
                &&& a.gres[i].name == b.gres[i].name
                &&& a.gres[i].uuid == b.gres[i].uuid
                &&& a.gres[i].memory.total_mb == b.gres[i].memory.total_mb
            },
    ensures
        metadata_of(a) == metadata_of(b),
        runtime_of(a).metadata_hash == runtime_of(b).metadata_hash,
{
    assert(metadata_of(a).gres =~= metadata_of(b).gres);
}

proof fn lemma_find_static(gres: Seq<StaticView>, k: int)
    requires
        0 <= k < gres.len(),
        forall|i: int, j: int|
            0 <= i < j < gres.len() ==> (#[trigger] gres[i]).index != (#[trigger] gres[j]).index,
    ensures
        find_static(gres, gres[k].index) == Some(gres[k]),
    decreases gres.len(),
{
    if k > 0 {
        assert(gres[0].index != gres[k].index);
        assert(gres.drop_first()[k - 1] == gres[k]);
        lemma_find_static(gres.drop_first(), k - 1);
    }
}

/// The metadata and the runtime part of a snapshot whose indices are distinct
/// make up the snapshot again, without the commands.
pub proof fn law_parts_rebuild_the_snapshot(s: SnapshotView)
    requires
        distinct_indices(s),
    ensures
        snapshot_rebuilt(runtime_of(s), metadata_of(s)) == without_commands(s),
{
    let m = metadata_of(s);
    let r = runtime_of(s);
    let built = snapshot_rebuilt(r, m);
    let plain = without_commands(s);
    assert forall|k: int| 0 <= k < s.gres.len() implies built.gres[k] == plain.gres[k] by {
        assert forall|i: int, j: int| 0 <= i < j < m.gres.len() implies (
        #[trigger] m.gres[i]).index != (#[trigger] m.gres[j]).index by {
            assert(s.gres[i].index != s.gres[j].index);
        }
        lemma_find_static(m.gres, k);
        assert(m.gres[k] == static_of(s.gres[k]));
        assert(built.gres[k] == gres_rebuilt(r.gres[k], m));
        assert(built.gres[k].processes =~= plain.gres[k].processes);
        assert(built.gres[k].memory == s.gres[k].memory);
    }
    assert(built.gres =~= plain.gres);
}

/// The parts of a rebuilt snapshot are the parts it was built from: metadata
/// and runtime survive the round trip.
pub proof fn law_rebuilding_keeps_the_parts(s: SnapshotView)
    requires
        distinct_indices(s),
    ensures
        metadata_of(snapshot_rebuilt(runtime_of(s), metadata_of(s))) == metadata_of(s),
        runtime_of(snapshot_rebuilt(runtime_of(s), metadata_of(s))) == runtime_of(s),
{
    law_parts_rebuild_the_snapshot(s);
    let plain = without_commands(s);
    assert(metadata_of(plain).gres =~= metadata_of(s).gres);
    assert forall|k: int| 0 <= k < s.gres.len() implies runtime_of(plain).gres[k]
        == runtime_of(s).gres[k] by {
        assert(runtime_of(plain).gres[k].processes =~= runtime_of(s).gres[k].processes);
    }
    assert(runtime_of(plain).gres =~= runtime_of(s).gres);
}

} // verus!
