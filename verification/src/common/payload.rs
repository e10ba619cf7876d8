//! Payload bytes: snapshots, metadata and runtime parts as `rkyv` archives.
//!
//! On the way to an archive a value is laid out as nested tuples, in the order
//! of its fields.

use vstd::prelude::*;
use vstd::utf8::encode_utf8;
use crate::bytes::{be_bytes, be_value, push_be, push_bytes, read_be};
use crate::bytes::{law_be_value_of_be_bytes, lemma_byte_capacities};
use crate::common::snapshot::{
    clone_opt_text, gres_views, metadata_of, opt_text, process_views, runtime_gres_of, runtime_of,
    runtime_views, static_of, static_views, GresInfo, GresMemory, GresProcessInfo,
    GresProcessRuntimeInfo, GresRuntimeInfo, GresStaticInfo, GresUtilization, GresView,
    HostMetadata, MetadataView, ProcessView, RuntimeGresView, RuntimeSnapshot, RuntimeView,
    ServerGresSnapshot, SnapshotView, StaticView,
};

verus! {

/// The largest payload that a handshake can announce.
pub const MAX_PAYLOAD_LEN: usize = 65535;

/// The length of the timestamp in front of a stamped payload.
pub const PAYLOAD_TIMESTAMP_LEN: usize = 8;

/// An archive addresses its parts by 32-bit signed offsets; values whose
/// archive could reach past them are not handed to the archiver.
pub const ARCHIVE_LIMIT: u64 = 0x7fff_ffff;

/// Why a length cannot be announced.
#[derive(Debug, Clone, Copy, PartialEq, Eq, Structural)]
pub enum PayloadLenError {
    TooLarge { len: usize, max: usize },
}

/// Why a value has no payload.
#[derive(Debug, Clone, PartialEq, Eq)]
pub enum PayloadEncodeError {
    PayloadTooLarge { len: usize, max: usize },
    SerializeFailed(String),
}

/// Why bytes are not a payload.
#[derive(Debug, Clone, PartialEq, Eq)]
pub enum PayloadDecodeError {
    Empty,
    DeserializeFailed(String),
}

// ---------------------------------------------------------------------------
// Values as nested tuples

pub type WireProcess = (u32, u32, Option<String>, u64);

pub type WireGres = (
    u8,
    String,
    Option<u32>,
    Option<String>,
    (u64, u64),
    (u8, u8),
    Vec<WireProcess>,
);

pub type WireSnapshot = (String, Option<String>, Vec<WireGres>);

pub type WireStatic = (u8, String, Option<String>, u64);

pub type WireMetadata = (String, Option<String>, Vec<WireStatic>);

pub type WireRuntimeGres = (u8, Option<u32>, u64, (u8, u8), Vec<(u32, u32, u64)>);

pub type WireRuntime = (u64, Vec<WireRuntimeGres>);

pub open spec fn wire_process_view(w: WireProcess) -> ProcessView {
    ProcessView { pid: w.0, uid: w.1, command: opt_text(w.2), used_memory_mb: w.3 }
}

pub open spec fn wire_gres_view(w: WireGres) -> GresView {
    GresView {
        index: w.0,
        name: w.1@,
        temperature_c: w.2,
        uuid: opt_text(w.3),
        memory: GresMemory { used_mb: w.4.0, total_mb: w.4.1 },
        utilization: GresUtilization { gres_percent: w.5.0, memory_percent: w.5.1 },
        processes: w.6@.map_values(|p: WireProcess| wire_process_view(p)),
    }
}

pub open spec fn wire_snapshot_view(w: WireSnapshot) -> SnapshotView {
    SnapshotView {
        hostname: w.0@,
        driver_version: opt_text(w.1),
        gres: w.2@.map_values(|g: WireGres| wire_gres_view(g)),
    }
}

pub open spec fn wire_static_view(w: WireStatic) -> StaticView {
    StaticView { index: w.0, name: w.1@, uuid: opt_text(w.2), memory_total_mb: w.3 }
}

pub open spec fn wire_metadata_view(w: WireMetadata) -> MetadataView {
    MetadataView {
        hostname: w.0@,
        driver_version: opt_text(w.1),
        gres: w.2@.map_values(|g: WireStatic| wire_static_view(g)),
    }
}

pub open spec fn wire_runtime_process(p: (u32, u32, u64)) -> GresProcessRuntimeInfo {
    GresProcessRuntimeInfo { pid: p.0, uid: p.1, used_memory_mb: p.2 }
}

pub open spec fn wire_runtime_gres_view(w: WireRuntimeGres) -> RuntimeGresView {
    RuntimeGresView {
        index: w.0,
        temperature_c: w.1,
        memory_used_mb: w.2,
        utilization: GresUtilization { gres_percent: w.3.0, memory_percent: w.3.1 },
        processes: w.4@.map_values(|p: (u32, u32, u64)| wire_runtime_process(p)),
    }
}

pub open spec fn wire_runtime_view(w: WireRuntime) -> RuntimeView {
    RuntimeView {
        metadata_hash: w.0,
        gres: w.1@.map_values(|g: WireRuntimeGres| wire_runtime_gres_view(g)),
    }
}

fn wire_processes(v: &Vec<GresProcessInfo>) -> (r: Vec<WireProcess>)
    ensures
        r@.map_values(|p: WireProcess| wire_process_view(p)) == process_views(v@),
{
    let mut out: Vec<WireProcess> = Vec::new();
    let mut i: usize = 0;
    while i < v.len()
        invariant
            i <= v@.len(),
            out@.map_values(|p: WireProcess| wire_process_view(p)) == process_views(v@).take(
                i as int,
            ),
        decreases v@.len() - i,
    {
        let p = &v[i];
        let w: WireProcess = (p.pid, p.uid, clone_opt_text(&p.command), p.used_memory_mb);
        assert(wire_process_view(w) == p@);
        proof {
            let f = |p: WireProcess| wire_process_view(p);
            assert(out@.push(w).map_values(f) =~= out@.map_values(f).push(p@));
        }
        out.push(w);
        i = i + 1;
        assert(out@.map_values(|p: WireProcess| wire_process_view(p)) =~= process_views(v@).take(
            i as int,
        ));
    }
    assert(process_views(v@).take(i as int) =~= process_views(v@));
    out
}

fn wire_snapshot(s: &ServerGresSnapshot) -> (r: WireSnapshot)
    ensures
        wire_snapshot_view(r) == s@,
{
    let mut out: Vec<WireGres> = Vec::new();
    let mut i: usize = 0;
    while i < s.gres.len()
        invariant
            i <= s.gres@.len(),
            out@.map_values(|g: WireGres| wire_gres_view(g)) == s@.gres.take(i as int),
        decreases s.gres@.len() - i,
    {
        let g = &s.gres[i];
        let w: WireGres = (
            g.index,
            g.name.clone(),
            g.temperature_c,
            clone_opt_text(&g.uuid),
            (g.memory.used_mb, g.memory.total_mb),
            (g.utilization.gres_percent, g.utilization.memory_percent),
            wire_processes(&g.processes),
        );
        assert(wire_gres_view(w) == g@);
        proof {
            let f = |g: WireGres| wire_gres_view(g);
            assert(out@.push(w).map_values(f) =~= out@.map_values(f).push(g@));
        }
        out.push(w);
        i = i + 1;
        assert(out@.map_values(|g: WireGres| wire_gres_view(g)) =~= s@.gres.take(i as int));
    }
    assert(s@.gres.take(i as int) =~= s@.gres);
    (s.hostname.clone(), clone_opt_text(&s.driver_version), out)
}

fn unwire_processes(v: &Vec<WireProcess>) -> (r: Vec<GresProcessInfo>)
    ensures
        process_views(r@) == v@.map_values(|p: WireProcess| wire_process_view(p)),
{
    let mut out: Vec<GresProcessInfo> = Vec::new();
    let ghost wanted = v@.map_values(|p: WireProcess| wire_process_view(p));
    let mut i: usize = 0;
    while i < v.len()
        invariant
            i <= v@.len(),
            wanted == v@.map_values(|p: WireProcess| wire_process_view(p)),
            process_views(out@) == wanted.take(i as int),
        decreases v@.len() - i,
    {
        let w = &v[i];
        let p = GresProcessInfo {
            pid: w.0,
            uid: w.1,
            command: clone_opt_text(&w.2),
            used_memory_mb: w.3,
        };
        assert(process_views(out@.push(p)) =~= process_views(out@).push(p@));
        assert(wanted[i as int] == p@);
        out.push(p);
        i = i + 1;
        assert(process_views(out@) =~= wanted.take(i as int));
    }
    assert(wanted.take(i as int) =~= wanted);
    out
}

fn unwire_snapshot(w: &WireSnapshot) -> (r: ServerGresSnapshot)
    ensures
        r@ == wire_snapshot_view(*w),
{
    let mut gres: Vec<GresInfo> = Vec::new();
    let ghost wanted = wire_snapshot_view(*w).gres;
    let mut i: usize = 0;
    while i < w.2.len()
        invariant
            i <= w.2@.len(),
            wanted == wire_snapshot_view(*w).gres,
            gres_views(gres@) == wanted.take(i as int),
        decreases w.2@.len() - i,
    {
        let from = &w.2[i];
        let g = GresInfo {
            index: from.0,
            name: from.1.clone(),
            temperature_c: from.2,
            uuid: clone_opt_text(&from.3),
            memory: GresMemory { used_mb: from.4.0, total_mb: from.4.1 },
            utilization: GresUtilization { gres_percent: from.5.0, memory_percent: from.5.1 },
            processes: unwire_processes(&from.6),
        };
        assert(wanted[i as int] == g@);
        assert(gres_views(gres@.push(g)) =~= gres_views(gres@).push(g@));
        gres.push(g);
        i = i + 1;
        assert(gres_views(gres@) =~= wanted.take(i as int));
    }
    assert(wanted.take(i as int) =~= wanted);
    ServerGresSnapshot { hostname: w.0.clone(), driver_version: clone_opt_text(&w.1), gres }
}

fn wire_metadata(m: &HostMetadata) -> (r: WireMetadata)
    ensures
        wire_metadata_view(r) == m@,
{
    let mut out: Vec<WireStatic> = Vec::new();
    let mut i: usize = 0;
    while i < m.gres.len()
        invariant
            i <= m.gres@.len(),
            out@.map_values(|g: WireStatic| wire_static_view(g)) == m@.gres.take(i as int),
        decreases m.gres@.len() - i,
    {
        let g = &m.gres[i];
        let w: WireStatic = (g.index, g.name.clone(), clone_opt_text(&g.uuid), g.memory_total_mb);
        assert(wire_static_view(w) == g@);
        proof {
            let f = |g: WireStatic| wire_static_view(g);
            assert(out@.push(w).map_values(f) =~= out@.map_values(f).push(g@));
        }
        out.push(w);
        i = i + 1;
        assert(out@.map_values(|g: WireStatic| wire_static_view(g)) =~= m@.gres.take(i as int));
    }
    assert(m@.gres.take(i as int) =~= m@.gres);
    (m.hostname.clone(), clone_opt_text(&m.driver_version), out)
}

fn unwire_metadata(w: &WireMetadata) -> (r: HostMetadata)
    ensures
        r@ == wire_metadata_view(*w),
{
    let mut gres: Vec<GresStaticInfo> = Vec::new();
    let ghost wanted = wire_metadata_view(*w).gres;
    let mut i: usize = 0;
    while i < w.2.len()
        invariant
            i <= w.2@.len(),
            wanted == wire_metadata_view(*w).gres,
            static_views(gres@) == wanted.take(i as int),
        decreases w.2@.len() - i,
    {
        let from = &w.2[i];
        let g = GresStaticInfo {
            index: from.0,
            name: from.1.clone(),
            uuid: clone_opt_text(&from.2),
            memory_total_mb: from.3,
        };
        assert(wanted[i as int] == g@);
        assert(static_views(gres@.push(g)) =~= static_views(gres@).push(g@));
        gres.push(g);
        i = i + 1;
        assert(static_views(gres@) =~= wanted.take(i as int));
    }
    assert(wanted.take(i as int) =~= wanted);
    HostMetadata { hostname: w.0.clone(), driver_version: clone_opt_text(&w.1), gres }
}

fn wire_runtime(s: &RuntimeSnapshot) -> (r: WireRuntime)
    ensures
        wire_runtime_view(r) == s@,
{
    let mut out: Vec<WireRuntimeGres> = Vec::new();
    let mut i: usize = 0;
    while i < s.gres.len()
        invariant
            i <= s.gres@.len(),
            out@.map_values(|g: WireRuntimeGres| wire_runtime_gres_view(g)) == s@.gres.take(
                i as int,
            ),
        decreases s.gres@.len() - i,
    {
        let g = &s.gres[i];
        let mut processes: Vec<(u32, u32, u64)> = Vec::new();
        let mut j: usize = 0;
        while j < g.processes.len()
            invariant
                j <= g.processes@.len(),
                processes@.map_values(|p: (u32, u32, u64)| wire_runtime_process(p))
                    == g.processes@.take(j as int),
            decreases g.processes@.len() - j,
        {
            let p = (g.processes[j].pid, g.processes[j].uid, g.processes[j].used_memory_mb);
            proof {
                let f = |p: (u32, u32, u64)| wire_runtime_process(p);
                assert(processes@.push(p).map_values(f) =~= processes@.map_values(f).push(
                    g.processes@[j as int],
                ));
            }
            processes.push(p);
            j = j + 1;
            assert(processes@.map_values(|p: (u32, u32, u64)| wire_runtime_process(p))
                =~= g.processes@.take(j as int));
        }
        assert(g.processes@.take(j as int) =~= g.processes@);
        let w: WireRuntimeGres = (
            g.index,
            g.temperature_c,
            g.memory_used_mb,
            (g.utilization.gres_percent, g.utilization.memory_percent),
            processes,
        );
        assert(wire_runtime_gres_view(w) == g@);
        proof {
            let f = |g: WireRuntimeGres| wire_runtime_gres_view(g);
            assert(out@.push(w).map_values(f) =~= out@.map_values(f).push(g@));
        }
        out.push(w);
        i = i + 1;
        assert(out@.map_values(|g: WireRuntimeGres| wire_runtime_gres_view(g)) =~= s@.gres.take(
            i as int,
        ));
    }
    assert(s@.gres.take(i as int) =~= s@.gres);
    (s.metadata_hash, out)
}

fn unwire_runtime(w: &WireRuntime) -> (r: RuntimeSnapshot)
    ensures
        r@ == wire_runtime_view(*w),
{
    let mut gres: Vec<GresRuntimeInfo> = Vec::new();
    let ghost wanted = wire_runtime_view(*w).gres;
    let mut i: usize = 0;
    while i < w.1.len()
        invariant
            i <= w.1@.len(),
            wanted == wire_runtime_view(*w).gres,
            runtime_views(gres@) == wanted.take(i as int),
        decreases w.1@.len() - i,
    {
        let from = &w.1[i];
        let mut processes: Vec<GresProcessRuntimeInfo> = Vec::new();
        let ghost inner = wire_runtime_gres_view(*from).processes;
        let mut j: usize = 0;
        while j < from.4.len()
            invariant
                j <= from.4@.len(),
                inner == wire_runtime_gres_view(*from).processes,
                processes@ == inner.take(j as int),
            decreases from.4@.len() - j,
        {
            let p = GresProcessRuntimeInfo {
                pid: from.4[j].0,
                uid: from.4[j].1,
                used_memory_mb: from.4[j].2,
            };
            assert(inner[j as int] == p);
            processes.push(p);
            j = j + 1;
            assert(processes@ =~= inner.take(j as int));
        }
        assert(inner.take(j as int) =~= inner);
        let g = GresRuntimeInfo {
            index: from.0,
            temperature_c: from.1,
            memory_used_mb: from.2,
            utilization: GresUtilization { gres_percent: from.3.0, memory_percent: from.3.1 },
            processes,
        };
        assert(wanted[i as int] == g@);
        assert(runtime_views(gres@.push(g)) =~= runtime_views(gres@).push(g@));
        gres.push(g);
        i = i + 1;
        assert(runtime_views(gres@) =~= wanted.take(i as int));
    }
    assert(wanted.take(i as int) =~= wanted);
    RuntimeSnapshot { metadata_hash: w.0, gres }
}

// ---------------------------------------------------------------------------
// A bound on the length of an archive

/// Room for an optional text in an archive.
pub open spec fn opt_room(o: Option<Seq<char>>) -> nat {
    match o {
        Some(s) => encode_utf8(s).len(),
        None => 0,
    }
}

/// Room for a list of processes in an archive.
pub open spec fn processes_room(v: Seq<ProcessView>) -> nat
    decreases v.len(),
{
    if v.len() == 0 {
        0
    } else {
        processes_room(v.drop_last()) + 64 + opt_room(v.last().command)
    }
}

/// Room for a list of resources in an archive.
pub open spec fn gres_room(v: Seq<GresView>) -> nat
    decreases v.len(),
{
    if v.len() == 0 {
        0
    } else {
        let g = v.last();
        gres_room(v.drop_last()) + 128 + encode_utf8(g.name).len() + opt_room(g.uuid)
            + processes_room(g.processes)
    }
}

/// Room for a snapshot in an archive: at least the length of the archive.
pub open spec fn snapshot_room(s: SnapshotView) -> nat {
    128 + encode_utf8(s.hostname).len() + opt_room(s.driver_version) + gres_room(s.gres)
}

/// Room for a list of static records in an archive.
pub open spec fn statics_room(v: Seq<StaticView>) -> nat
    decreases v.len(),
{
    if v.len() == 0 {
        0
    } else {
        let g = v.last();
        statics_room(v.drop_last()) + 128 + encode_utf8(g.name).len() + opt_room(g.uuid)
    }
}

/// Room for metadata in an archive: at least the length of the archive.
pub open spec fn metadata_room(m: MetadataView) -> nat {
    128 + encode_utf8(m.hostname).len() + opt_room(m.driver_version) + statics_room(m.gres)
}

/// Room for a list of runtime records in an archive.
pub open spec fn runtimes_room(v: Seq<RuntimeGresView>) -> nat
    decreases v.len(),
{
    if v.len() == 0 {
        0
    } else {
        runtimes_room(v.drop_last()) + 128 + 32 * v.last().processes.len()
    }
}

/// Room for a runtime part in an archive: at least the length of the archive.
pub open spec fn runtime_room(r: RuntimeView) -> nat {
    128 + runtimes_room(r.gres)
}

proof fn lemma_gres_rooms(v: Seq<GresView>)
    ensures
        statics_room(v.map_values(|g: GresView| static_of(g))) <= gres_room(v),
        runtimes_room(v.map_values(|g: GresView| runtime_gres_of(g))) <= gres_room(v),
    decreases v.len(),
{
    let statics = v.map_values(|g: GresView| static_of(g));
    let runtimes = v.map_values(|g: GresView| runtime_gres_of(g));
    if v.len() > 0 {
        let rest = v.drop_last();
        lemma_gres_rooms(rest);
        assert(statics.drop_last() =~= rest.map_values(|g: GresView| static_of(g)));
        assert(runtimes.drop_last() =~= rest.map_values(|g: GresView| runtime_gres_of(g)));
        lemma_processes_room(v.last().processes);
    }
}

proof fn lemma_processes_room(v: Seq<ProcessView>)
    ensures
        32 * v.len() <= processes_room(v),
    decreases v.len(),
{
    if v.len() > 0 {
        lemma_processes_room(v.drop_last());
    }
}

/// The parts of a snapshot need no more room than the snapshot.
pub proof fn lemma_parts_fit(s: SnapshotView)
    ensures
        metadata_room(metadata_of(s)) <= snapshot_room(s),
        runtime_room(runtime_of(s)) <= snapshot_room(s),
{
    lemma_gres_rooms(s.gres);
}

/// `n`, or the largest 64-bit number if that is less.
pub open spec fn capped(n: nat) -> u64 {
    if n > u64::MAX {
        u64::MAX
    } else {
        n as u64
    }
}

fn plus(a: u64, b: u64, Ghost(x): Ghost<nat>, Ghost(y): Ghost<nat>) -> (r: u64)
    requires
        a == capped(x),
        b == capped(y),
    ensures
        r == capped(x + y),
{
    a.saturating_add(b)
}

fn text_room(s: &str) -> (r: u64)
    ensures
        r == capped(encode_utf8(s@).len()),
{
    s.as_bytes().len() as u64
}

fn opt_text_room(o: &Option<String>) -> (r: u64)
    ensures
        r == capped(opt_room(opt_text(*o))),
{
    match o {
        Some(s) => text_room(s.as_str()),
        None => 0,
    }
}

fn room_of_processes(v: &Vec<GresProcessInfo>) -> (r: u64)
    ensures
        r == capped(processes_room(process_views(v@))),
{
    let ghost all = process_views(v@);
    let mut total: u64 = 0;
    let mut i: usize = 0;
    assert(all.take(0) =~= Seq::empty());
    while i < v.len()
        invariant
            i <= v@.len(),
            all == process_views(v@),
            total == capped(processes_room(all.take(i as int))),
        decreases v@.len() - i,
    {
        let ghost done = processes_room(all.take(i as int));
        let room = opt_text_room(&v[i].command);
        proof {
            assert(all.take(i + 1).drop_last() =~= all.take(i as int));
            assert(all.take(i + 1).last() == v@[i as int]@);
        }
        total = plus(total, 64, Ghost(done), Ghost(64));
        total = plus(total, room, Ghost(done + 64), Ghost(opt_room(v@[i as int]@.command)));
        i = i + 1;
    }
    assert(all.take(i as int) =~= all);
    total
}

fn room_of_snapshot(s: &ServerGresSnapshot) -> (r: u64)
    ensures
        r == capped(snapshot_room(s@)),
{
    let ghost all = s@.gres;
    let mut total: u64 = 0;
    let mut i: usize = 0;
    assert(all.take(0) =~= Seq::empty());
    while i < s.gres.len()
        invariant
            i <= s.gres@.len(),
            all == s@.gres,
            total == capped(gres_room(all.take(i as int))),
        decreases s.gres@.len() - i,
    {
        let g = &s.gres[i];
        let ghost v = g@;
        let ghost done = gres_room(all.take(i as int));
        proof {
            assert(all.take(i + 1).drop_last() =~= all.take(i as int));
            assert(all.take(i + 1).last() == v);
        }
        let name = text_room(g.name.as_str());
        let uuid = opt_text_room(&g.uuid);
        let processes = room_of_processes(&g.processes);
        let ghost n = encode_utf8(v.name).len();
        total = plus(total, 128, Ghost(done), Ghost(128));
        total = plus(total, name, Ghost(done + 128), Ghost(n));
        total = plus(total, uuid, Ghost(done + 128 + n), Ghost(opt_room(v.uuid)));
        total =
        plus(
            total,
            processes,
            Ghost(done + 128 + n + opt_room(v.uuid)),
            Ghost(processes_room(v.processes)),
        );
        i = i + 1;
    }
    assert(all.take(i as int) =~= all);
    let host = text_room(s.hostname.as_str());
    let driver = opt_text_room(&s.driver_version);
    let ghost h = encode_utf8(s@.hostname).len();
    let ghost d = opt_room(s@.driver_version);
    total = plus(total, 128, Ghost(gres_room(all)), Ghost(128));
    total = plus(total, host, Ghost(gres_room(all) + 128), Ghost(h));
    plus(total, driver, Ghost(gres_room(all) + 128 + h), Ghost(d))
}

fn room_of_metadata(m: &HostMetadata) -> (r: u64)
    ensures
        r == capped(metadata_room(m@)),
{
    let ghost all = m@.gres;
    let mut total: u64 = 0;
    let mut i: usize = 0;
    assert(all.take(0) =~= Seq::empty());
    while i < m.gres.len()
        invariant
            i <= m.gres@.len(),
            all == m@.gres,
            total == capped(statics_room(all.take(i as int))),
        decreases m.gres@.len() - i,
    {
        let g = &m.gres[i];
        let ghost v = g@;
        let ghost done = statics_room(all.take(i as int));
        proof {
            assert(all.take(i + 1).drop_last() =~= all.take(i as int));
            assert(all.take(i + 1).last() == v);
        }
        let name = text_room(g.name.as_str());
        let uuid = opt_text_room(&g.uuid);
        let ghost n = encode_utf8(v.name).len();
        total = plus(total, 128, Ghost(done), Ghost(128));
        total = plus(total, name, Ghost(done + 128), Ghost(n));
        total = plus(total, uuid, Ghost(done + 128 + n), Ghost(opt_room(v.uuid)));
        i = i + 1;
    }
    assert(all.take(i as int) =~= all);
    let host = text_room(m.hostname.as_str());
    let driver = opt_text_room(&m.driver_version);
    let ghost h = encode_utf8(m@.hostname).len();
    let ghost d = opt_room(m@.driver_version);
    total = plus(total, 128, Ghost(statics_room(all)), Ghost(128));
    total = plus(total, host, Ghost(statics_room(all) + 128), Ghost(h));
    plus(total, driver, Ghost(statics_room(all) + 128 + h), Ghost(d))
}

fn room_of_runtime(s: &RuntimeSnapshot) -> (r: u64)
    ensures
        r == capped(runtime_room(s@)),
{
    let ghost all = s@.gres;
    let mut total: u64 = 0;
    let mut i: usize = 0;
    assert(all.take(0) =~= Seq::empty());
    while i < s.gres.len()
        invariant
            i <= s.gres@.len(),
            all == s@.gres,
            total == capped(runtimes_room(all.take(i as int))),
        decreases s.gres@.len() - i,
    {
        let n: usize = s.gres[i].processes.len();
        let ghost done = runtimes_room(all.take(i as int));
        proof {
            assert(all.take(i + 1).drop_last() =~= all.take(i as int));
            assert(all.take(i + 1).last() == s.gres@[i as int]@);
        }
        let room: u64 = if n as u64 > u64::MAX / 32 {
            u64::MAX
        } else {
            n as u64 * 32
        };
        total = plus(total, 128, Ghost(done), Ghost(128));
        total = plus(total, room, Ghost(done + 128), Ghost((32 * n) as nat));
        i = i + 1;
    }
    assert(all.take(i as int) =~= all);
    plus(total, 128, Ghost(runtimes_room(all)), Ghost(128))
}

// ---------------------------------------------------------------------------
// The archiver

/// The `rkyv` archive of a snapshot, or nothing if it cannot be archived.
pub uninterp spec fn snapshot_archive(s: SnapshotView) -> Option<Seq<u8>>;

/// The snapshot in an `rkyv` archive, or nothing if the bytes are not one.
pub uninterp spec fn snapshot_unarchived(bytes: Seq<u8>) -> Option<SnapshotView>;

/// The `rkyv` archive of metadata, or nothing if it cannot be archived.
pub uninterp spec fn metadata_archive(m: MetadataView) -> Option<Seq<u8>>;

/// The metadata in an `rkyv` archive, or nothing if the bytes are not one.
pub uninterp spec fn metadata_unarchived(bytes: Seq<u8>) -> Option<MetadataView>;

/// The `rkyv` archive of a runtime part, or nothing if it cannot be archived.
pub uninterp spec fn runtime_archive(r: RuntimeView) -> Option<Seq<u8>>;

/// The runtime part in an `rkyv` archive, or nothing if the bytes are not one.
pub uninterp spec fn runtime_unarchived(bytes: Seq<u8>) -> Option<RuntimeView>;

/// `rkyv::to_bytes` on a snapshot: the bytes are determined by the value, and
/// so is whether there are any; an archive is never empty. The text of the error
/// is left open. A value whose archive would outgrow 32-bit offsets makes `rkyv`
/// panic.
#[verifier::external_body]
fn archive_snapshot(value: &WireSnapshot) -> (r: Result<Vec<u8>, String>)
    requires
        snapshot_room(wire_snapshot_view(*value)) <= ARCHIVE_LIMIT,
    ensures
        match r {
            Ok(bytes) => snapshot_archive(wire_snapshot_view(*value)) == Some(bytes@)
                && bytes@.len() > 0,
            Err(_) => snapshot_archive(wire_snapshot_view(*value)) is None,
        },
{
    match rkyv::to_bytes::<rkyv::rancor::Error>(value) {
        Ok(bytes) => Ok(bytes.into_vec()),
        Err(err) => Err(err.to_string()),
    }
}

/// `rkyv::from_bytes` on an aligned copy of the bytes: the value is determined
/// by the bytes, and the archive of a snapshot gives that snapshot back. The
/// text of the error is left open. The copy panics on a length that no
/// allocation has.
#[verifier::external_body]
fn unarchive_snapshot(bytes: &[u8]) -> (r: Result<WireSnapshot, String>)
    requires
        bytes@.len() <= isize::MAX - 15,
    ensures
        match r {
            Ok(value) => snapshot_unarchived(bytes@) == Some(wire_snapshot_view(value)),
            Err(_) => snapshot_unarchived(bytes@) is None,
        },
        forall|s: SnapshotView| #[trigger]
            snapshot_archive(s) == Some(bytes@) ==> r is Ok && wire_snapshot_view(r->Ok_0) == s,
{
    let mut aligned = rkyv::util::AlignedVec::<16>::with_capacity(bytes.len());
    aligned.extend_from_slice(bytes);
    match rkyv::from_bytes::<WireSnapshot, rkyv::rancor::Error>(&aligned) {
        Ok(value) => Ok(value),
        Err(err) => Err(err.to_string()),
    }
}

/// `rkyv::to_bytes` on metadata: the bytes are determined by the value, and so
/// is whether there are any; an archive is never empty. The text of the error is
/// left open. A value whose archive would outgrow 32-bit offsets makes `rkyv`
/// panic.
#[verifier::external_body]
fn archive_metadata(value: &WireMetadata) -> (r: Result<Vec<u8>, String>)
    requires
        metadata_room(wire_metadata_view(*value)) <= ARCHIVE_LIMIT,
    ensures
        match r {
            Ok(bytes) => metadata_archive(wire_metadata_view(*value)) == Some(bytes@)
                && bytes@.len() > 0,
            Err(_) => metadata_archive(wire_metadata_view(*value)) is None,
        },
{
    match rkyv::to_bytes::<rkyv::rancor::Error>(value) {
        Ok(bytes) => Ok(bytes.into_vec()),
        Err(err) => Err(err.to_string()),
    }
}

/// `rkyv::from_bytes` on an aligned copy of the bytes: the value is determined
/// by the bytes, and the archive of metadata gives that metadata back. The
/// text of the error is left open. The copy panics on a length that no
/// allocation has.
#[verifier::external_body]
fn unarchive_metadata(bytes: &[u8]) -> (r: Result<WireMetadata, String>)
    requires
        bytes@.len() <= isize::MAX - 15,
    ensures
        match r {
            Ok(value) => metadata_unarchived(bytes@) == Some(wire_metadata_view(value)),
            Err(_) => metadata_unarchived(bytes@) is None,
        },
        forall|m: MetadataView| #[trigger]
            metadata_archive(m) == Some(bytes@) ==> r is Ok && wire_metadata_view(r->Ok_0) == m,
{
    let mut aligned = rkyv::util::AlignedVec::<16>::with_capacity(bytes.len());
    aligned.extend_from_slice(bytes);
    match rkyv::from_bytes::<WireMetadata, rkyv::rancor::Error>(&aligned) {
        Ok(value) => Ok(value),
        Err(err) => Err(err.to_string()),
    }
}

/// `rkyv::to_bytes` on a runtime part: the bytes are determined by the value,
/// and so is whether there are any; an archive is never empty. The text of the
/// error is left open. A value whose archive would outgrow 32-bit offsets makes
/// `rkyv` panic.
#[verifier::external_body]
fn archive_runtime(value: &WireRuntime) -> (r: Result<Vec<u8>, String>)
    requires
        runtime_room(wire_runtime_view(*value)) <= ARCHIVE_LIMIT,
    ensures
        match r {
            Ok(bytes) => runtime_archive(wire_runtime_view(*value)) == Some(bytes@)
                && bytes@.len() > 0,
            Err(_) => runtime_archive(wire_runtime_view(*value)) is None,
        },
{
    match rkyv::to_bytes::<rkyv::rancor::Error>(value) {
        Ok(bytes) => Ok(bytes.into_vec()),
        Err(err) => Err(err.to_string()),
    }
}

/// `rkyv::from_bytes` on an aligned copy of the bytes: the value is determined
/// by the bytes, and the archive of a runtime part gives that part back. The
/// text of the error is left open. The copy panics on a length that no
/// allocation has.
#[verifier::external_body]
fn unarchive_runtime(bytes: &[u8]) -> (r: Result<WireRuntime, String>)
    requires
        bytes@.len() <= isize::MAX - 15,
    ensures
        match r {
            Ok(value) => runtime_unarchived(bytes@) == Some(wire_runtime_view(value)),
            Err(_) => runtime_unarchived(bytes@) is None,
        },
        forall|s: RuntimeView| #[trigger]
            runtime_archive(s) == Some(bytes@) ==> r is Ok && wire_runtime_view(r->Ok_0) == s,
{
    let mut aligned = rkyv::util::AlignedVec::<16>::with_capacity(bytes.len());
    aligned.extend_from_slice(bytes);
    match rkyv::from_bytes::<WireRuntime, rkyv::rancor::Error>(&aligned) {
        Ok(value) => Ok(value),
        Err(err) => Err(err.to_string()),
    }
}

// ---------------------------------------------------------------------------
// Payloads

/// Whether `r` is the payload for the archive of a value, or the reason why
/// there is none.
pub open spec fn is_payload(
    r: Result<Vec<u8>, PayloadEncodeError>,
    archive: Option<Seq<u8>>,
) -> bool {
    match r {
        Ok(bytes) => archive == Some(bytes@) && 0 < bytes@.len() <= MAX_PAYLOAD_LEN,
        Err(PayloadEncodeError::PayloadTooLarge { len, max }) => archive matches Some(a) && a.len()
            == len && len > MAX_PAYLOAD_LEN && max == MAX_PAYLOAD_LEN,
        Err(PayloadEncodeError::SerializeFailed(_)) => archive is None,
    }
}

/// The payload length to announce for an archive of the given length.
pub fn payload_len_from_archived_len(archived_len: usize) -> (r: Result<u16, PayloadLenError>)
    ensures
        archived_len <= MAX_PAYLOAD_LEN ==> r == Ok::<u16, PayloadLenError>(archived_len as u16),
        archived_len > MAX_PAYLOAD_LEN ==> r == Err::<u16, PayloadLenError>(
            PayloadLenError::TooLarge { len: archived_len, max: MAX_PAYLOAD_LEN },
        ),
{
    if archived_len > MAX_PAYLOAD_LEN {
        return Err(PayloadLenError::TooLarge { len: archived_len, max: MAX_PAYLOAD_LEN });
    }
    Ok(archived_len as u16)
}

/// The length of the archive behind an announced payload length.
pub fn archived_len_from_payload_len(payload_len: u16) -> (r: Option<usize>)
    ensures
        r == Some(payload_len as usize),
{
    Some(payload_len as usize)
}

/// What becomes of the outcome of archiving: an archive that is too long to be
/// announced is refused.
pub fn checked_payload(archived: Result<Vec<u8>, String>) -> (r: Result<Vec<u8>, PayloadEncodeError>)
    ensures
        match archived {
            Ok(bytes) => if bytes@.len() <= MAX_PAYLOAD_LEN {
                r matches Ok(out) && out@ == bytes@
            } else {
                r matches Err(PayloadEncodeError::PayloadTooLarge { len, max }) && len
                    == bytes@.len() && max == MAX_PAYLOAD_LEN
            },
            Err(text) => r matches Err(PayloadEncodeError::SerializeFailed(t)) && t == text,
        },
{
    match archived {
        Ok(bytes) => {
            match payload_len_from_archived_len(bytes.len()) {
                Ok(_) => Ok(bytes),
                Err(PayloadLenError::TooLarge { len, max }) => Err(
                    PayloadEncodeError::PayloadTooLarge { len, max },
                ),
            }
        },
        Err(text) => Err(PayloadEncodeError::SerializeFailed(text)),
    }
}

/// Whether a snapshot can be handed to the archiver.
pub fn snapshot_fits(snapshot: &ServerGresSnapshot) -> (r: bool)
    ensures
        r == (snapshot_room(snapshot@) <= ARCHIVE_LIMIT),
{
    room_of_snapshot(snapshot) <= ARCHIVE_LIMIT
}

/// Whether metadata can be handed to the archiver.
pub fn metadata_fits(metadata: &HostMetadata) -> (r: bool)
    ensures
        r == (metadata_room(metadata@) <= ARCHIVE_LIMIT),
{
    room_of_metadata(metadata) <= ARCHIVE_LIMIT
}

/// Whether a runtime part can be handed to the archiver.
pub fn runtime_fits(snapshot: &RuntimeSnapshot) -> (r: bool)
    ensures
        r == (runtime_room(snapshot@) <= ARCHIVE_LIMIT),
{
    room_of_runtime(snapshot) <= ARCHIVE_LIMIT
}

/// The payload of a snapshot.
pub fn encode_snapshot_payload(snapshot: &ServerGresSnapshot) -> (r: Result<
    Vec<u8>,
    PayloadEncodeError,
>)
    requires
        snapshot_room(snapshot@) <= ARCHIVE_LIMIT,
    ensures
        is_payload(r, snapshot_archive(snapshot@)),
{
    checked_payload(archive_snapshot(&wire_snapshot(snapshot)))
}

/// The payload of metadata.
pub fn encode_metadata_payload(metadata: &HostMetadata) -> (r: Result<Vec<u8>, PayloadEncodeError>)
    requires
        metadata_room(metadata@) <= ARCHIVE_LIMIT,
    ensures
        is_payload(r, metadata_archive(metadata@)),
{
    checked_payload(archive_metadata(&wire_metadata(metadata)))
}

/// The payload of a runtime part.
pub fn encode_runtime_payload(snapshot: &RuntimeSnapshot) -> (r: Result<
    Vec<u8>,
    PayloadEncodeError,
>)
    requires
        runtime_room(snapshot@) <= ARCHIVE_LIMIT,
    ensures
        is_payload(r, runtime_archive(snapshot@)),
{
    checked_payload(archive_runtime(&wire_runtime(snapshot)))
}

/// Whether bytes can be the payload of an archive at all.
pub open spec fn payload_sized(p: Seq<u8>) -> bool {
    0 < p.len() <= isize::MAX - 15
}

/// The metadata in a payload, if it is such.
pub open spec fn metadata_in(p: Seq<u8>) -> Option<MetadataView> {
    if payload_sized(p) {
        metadata_unarchived(p)
    } else {
        None
    }
}

/// The runtime part in a payload, if it is such.
pub open spec fn runtime_in(p: Seq<u8>) -> Option<RuntimeView> {
    if payload_sized(p) {
        runtime_unarchived(p)
    } else {
        None
    }
}

/// The snapshot in a payload, if it is such.
pub open spec fn snapshot_in(p: Seq<u8>) -> Option<SnapshotView> {
    if payload_sized(p) {
        snapshot_unarchived(p)
    } else {
        None
    }
}

/// Whether a byte count is one that an allocation can have.
fn allocatable(len: usize) -> (r: bool)
    ensures
        r == (len <= isize::MAX - 15),
{
    len <= isize::MAX as usize - 15
}

fn not_allocatable() -> (r: PayloadDecodeError)
    ensures
        r is DeserializeFailed,
{
    PayloadDecodeError::DeserializeFailed("payload does not fit memory".to_owned())
}

/// The snapshot in a payload.
pub fn decode_snapshot_payload(bytes: &[u8]) -> (r: Result<ServerGresSnapshot, PayloadDecodeError>)
    ensures
        bytes@.len() == 0 <==> r == Err::<ServerGresSnapshot, _>(PayloadDecodeError::Empty),
        0 < bytes@.len() <= isize::MAX - 15 ==> match r {
            Ok(s) => snapshot_unarchived(bytes@) == Some(s@),
            Err(_) => snapshot_unarchived(bytes@) is None,
        },
        bytes@.len() > isize::MAX - 15 ==> r is Err,
        forall|s: SnapshotView| #[trigger]
            snapshot_archive(s) == Some(bytes@) && 0 < bytes@.len() <= isize::MAX - 15 ==> r is Ok
                && r->Ok_0@ == s,
{
    if bytes.len() == 0 {
        return Err(PayloadDecodeError::Empty);
    }
    if !allocatable(bytes.len()) {
        return Err(not_allocatable());
    }
    match unarchive_snapshot(bytes) {
        Ok(w) => Ok(unwire_snapshot(&w)),
        Err(text) => Err(PayloadDecodeError::DeserializeFailed(text)),
    }
}

/// The metadata in a payload.
pub fn decode_metadata_payload(bytes: &[u8]) -> (r: Result<HostMetadata, PayloadDecodeError>)
    ensures
        bytes@.len() == 0 <==> r == Err::<HostMetadata, _>(PayloadDecodeError::Empty),
        0 < bytes@.len() <= isize::MAX - 15 ==> match r {
            Ok(m) => metadata_unarchived(bytes@) == Some(m@),
            Err(_) => metadata_unarchived(bytes@) is None,
        },
        bytes@.len() > isize::MAX - 15 ==> r is Err,
        forall|m: MetadataView| #[trigger]
            metadata_archive(m) == Some(bytes@) && 0 < bytes@.len() <= isize::MAX - 15 ==> r is Ok
                && r->Ok_0@ == m,
{
    if bytes.len() == 0 {
        return Err(PayloadDecodeError::Empty);
    }
    if !allocatable(bytes.len()) {
        return Err(not_allocatable());
    }
    match unarchive_metadata(bytes) {
        Ok(w) => Ok(unwire_metadata(&w)),
        Err(text) => Err(PayloadDecodeError::DeserializeFailed(text)),
    }
}

/// The runtime part in a payload.
pub fn decode_runtime_payload(bytes: &[u8]) -> (r: Result<RuntimeSnapshot, PayloadDecodeError>)
    ensures
        bytes@.len() == 0 <==> r == Err::<RuntimeSnapshot, _>(PayloadDecodeError::Empty),
        0 < bytes@.len() <= isize::MAX - 15 ==> match r {
            Ok(s) => runtime_unarchived(bytes@) == Some(s@),
            Err(_) => runtime_unarchived(bytes@) is None,
        },
        bytes@.len() > isize::MAX - 15 ==> r is Err,
        forall|s: RuntimeView| #[trigger]
            runtime_archive(s) == Some(bytes@) && 0 < bytes@.len() <= isize::MAX - 15 ==> r is Ok
                && r->Ok_0@ == s,
{
    if bytes.len() == 0 {
        return Err(PayloadDecodeError::Empty);
    }
    if !allocatable(bytes.len()) {
        return Err(not_allocatable());
    }
    match unarchive_runtime(bytes) {
        Ok(w) => Ok(unwire_runtime(&w)),
        Err(text) => Err(PayloadDecodeError::DeserializeFailed(text)),
    }
}

// ---------------------------------------------------------------------------
// Stamped payloads

/// A payload with a timestamp in front.
pub open spec fn stamped(timestamp_ms: i64, archived: Seq<u8>) -> Seq<u8> {
    be_bytes((timestamp_ms as u64) as nat, 8) + archived
}

/// Puts a timestamp in front of an archive. Newer peers exchange archives
/// without one.
pub fn encode_payload(timestamp_ms: i64, archived_server_gres: &[u8]) -> (r: Result<
    Vec<u8>,
    PayloadLenError,
>)
    ensures
        match r {
            Ok(bytes) => bytes@ == stamped(timestamp_ms, archived_server_gres@)
                && archived_server_gres@.len() + 8 <= MAX_PAYLOAD_LEN,
            Err(PayloadLenError::TooLarge { len, max }) => archived_server_gres@.len() + 8
                > MAX_PAYLOAD_LEN && max == MAX_PAYLOAD_LEN && len == (if archived_server_gres@.len()
                + 8 > usize::MAX {
                usize::MAX as int
            } else {
                (archived_server_gres@.len() + 8) as int
            }),
        },
{
    let payload_len = match PAYLOAD_TIMESTAMP_LEN.checked_add(archived_server_gres.len()) {
        Some(n) => n,
        None => {
            return Err(PayloadLenError::TooLarge { len: usize::MAX, max: MAX_PAYLOAD_LEN });
        },
    };
    if payload_len > MAX_PAYLOAD_LEN {
        return Err(PayloadLenError::TooLarge { len: payload_len, max: MAX_PAYLOAD_LEN });
    }
    let mut out: Vec<u8> = Vec::new();
    push_be(&mut out, timestamp_ms as u64, 8);
    push_bytes(&mut out, archived_server_gres);
    assert(out@ =~= stamped(timestamp_ms, archived_server_gres@));
    Ok(out)
}

/// Takes the timestamp off a stamped payload.
pub fn decode_payload(payload: &[u8]) -> (r: Option<(i64, &[u8])>)
    ensures
        match r {
            Some((ts, rest)) => payload@.len() >= 8 && ts == (be_value(payload@.take(8)) as u64)
                as i64 && rest@ == payload@.skip(8),
            None => payload@.len() < 8,
        },
{
    if payload.len() < PAYLOAD_TIMESTAMP_LEN {
        return None;
    }
    let ts: u64 = read_be(payload, 0, 8);
    assert(payload@.subrange(0, 8) =~= payload@.take(8));
    let rest = &payload[PAYLOAD_TIMESTAMP_LEN..payload.len()];
    assert(rest@ =~= payload@.skip(8));
    Some((ts as i64, rest))
}

/// A stamped payload gives back its timestamp and its archive.
pub proof fn law_stamp_reads_back(timestamp_ms: i64, archived: Seq<u8>)
    ensures
        (be_value(stamped(timestamp_ms, archived).take(8)) as u64) as i64 == timestamp_ms,
        stamped(timestamp_ms, archived).skip(8) == archived,
{
    let n = timestamp_ms as u64;
    lemma_byte_capacities();
    law_be_value_of_be_bytes(n as nat, 8);
    assert(stamped(timestamp_ms, archived).take(8) =~= be_bytes(n as nat, 8));
    assert(stamped(timestamp_ms, archived).skip(8) =~= archived);
    assert((timestamp_ms as u64) as i64 == timestamp_ms) by (bit_vector);
}

} // verus!
