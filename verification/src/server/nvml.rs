//! NVML readings: from the counters of the NVIDIA library to a snapshot.

use vstd::prelude::*;
use crate::common::snapshot::{
    gres_views, opt_text, process_views, GresInfo, GresMemory, GresProcessInfo, GresUtilization,
    GresView, ProcessView, ServerGresSnapshot, SnapshotView, clone_opt_text,
};
use crate::text::{
    begins, lines, lowered, parse_unsigned, same, same_ignoring_case, split_lines, split_words,
    starts_with, texts, trim, trimmed, unsigned_value, words,
};

verus! {

/// A process as the library reports it.
#[derive(Debug)]
pub struct NvmlProcess {
    pub pid: u32,
    /// The owner, where it could be found.
    pub uid: Option<u32>,
    pub command: Option<String>,
    /// Memory in bytes, where the library knows it.
    pub used_bytes: Option<u64>,
}

/// A device as the library reports it.
#[derive(Debug)]
pub struct NvmlDevice {
    pub name: Option<String>,
    pub uuid: Option<String>,
    pub temperature_c: Option<u32>,
    pub memory_used_bytes: u64,
    pub memory_total_bytes: u64,
    pub gpu_percent: u32,
    pub memory_percent: u32,
    /// Compute processes first, then graphics processes.
    pub processes: Vec<NvmlProcess>,
}

pub struct NvmlProcessView {
    pub pid: u32,
    pub uid: Option<u32>,
    pub command: Option<Seq<char>>,
    pub used_bytes: Option<u64>,
}

impl View for NvmlProcess {
    type V = NvmlProcessView;

    open spec fn view(&self) -> NvmlProcessView {
        NvmlProcessView {
            pid: self.pid,
            uid: self.uid,
            command: opt_text(self.command),
            used_bytes: self.used_bytes,
        }
    }
}

pub open spec fn nvml_process_views(v: Seq<NvmlProcess>) -> Seq<NvmlProcessView> {
    v.map_values(|p: NvmlProcess| p@)
}

pub struct NvmlDeviceView {
    pub name: Option<Seq<char>>,
    pub uuid: Option<Seq<char>>,
    pub temperature_c: Option<u32>,
    pub memory_used_bytes: u64,
    pub memory_total_bytes: u64,
    pub gpu_percent: u32,
    pub memory_percent: u32,
    pub processes: Seq<NvmlProcessView>,
}

impl View for NvmlDevice {
    type V = NvmlDeviceView;

    open spec fn view(&self) -> NvmlDeviceView {
        NvmlDeviceView {
            name: opt_text(self.name),
            uuid: opt_text(self.uuid),
            temperature_c: self.temperature_c,
            memory_used_bytes: self.memory_used_bytes,
            memory_total_bytes: self.memory_total_bytes,
            gpu_percent: self.gpu_percent,
            memory_percent: self.memory_percent,
            processes: nvml_process_views(self.processes@),
        }
    }
}

/// Bytes in whole MiB.
pub open spec fn mib(bytes: u64) -> u64 {
    (bytes / 1024 / 1024) as u64
}

/// A percentage as a byte, at most 100.
pub open spec fn percent(n: u32) -> u8 {
    if n > 100 {
        100
    } else {
        n as u8
    }
}

/// A process for a snapshot. An owner that could not be found is the largest
/// number.
pub open spec fn process_entry(p: NvmlProcessView) -> ProcessView {
    ProcessView {
        pid: p.pid,
        uid: match p.uid {
            Some(u) => u,
            None => u32::MAX,
        },
        command: p.command,
        used_memory_mb: match p.used_bytes {
            Some(b) => mib(b),
            None => 0,
        },
    }
}

/// Whether a process occurs before position `i`.
pub open spec fn pid_before(v: Seq<NvmlProcessView>, i: int) -> bool {
    exists|j: int| 0 <= j < i && (#[trigger] v[j]).pid == v[i].pid
}

/// The processes for a snapshot, each pid once, where it occurs first.
pub open spec fn process_entries(v: Seq<NvmlProcessView>, n: int) -> Seq<ProcessView>
    decreases n,
{
    if n <= 0 {
        Seq::empty()
    } else {
        let before = process_entries(v, n - 1);
        if pid_before(v, n - 1) {
            before
        } else {
            before.push(process_entry(v[n - 1]))
        }
    }
}

/// A device for a snapshot.
pub open spec fn gres_entry(d: NvmlDeviceView, index: u8) -> GresView {
    GresView {
        index,
        name: match d.name {
            Some(n) => n,
            None => "unknown"@,
        },
        temperature_c: d.temperature_c,
        uuid: d.uuid,
        memory: GresMemory { used_mb: mib(d.memory_used_bytes), total_mb: mib(d.memory_total_bytes) },
        utilization: GresUtilization {
            gres_percent: percent(d.gpu_percent),
            memory_percent: percent(d.memory_percent),
        },
        processes: process_entries(d.processes, d.processes.len() as int),
    }
}

/// The snapshot for the devices of a node.
pub open spec fn nvml_snapshot(
    hostname: Seq<char>,
    driver_version: Option<Seq<char>>,
    devices: Seq<NvmlDeviceView>,
) -> SnapshotView {
    SnapshotView {
        hostname,
        driver_version,
        gres: Seq::new(devices.len(), |i: int| gres_entry(devices[i], i as u8)),
    }
}

/// How many devices are read: at most 255.
pub fn device_limit(count: u32) -> (r: u32)
    ensures
        r == (if count > 255 {
            255u32
        } else {
            count
        }),
{
    if count > 255 {
        255
    } else {
        count
    }
}

fn as_percent(n: u32) -> (r: u8)
    ensures
        r == percent(n),
{
    if n > 100 {
        100
    } else {
        n as u8
    }
}

fn seen_before(v: &Vec<NvmlProcess>, i: usize) -> (r: bool)
    requires
        i < v@.len(),
    ensures
        r == pid_before(nvml_process_views(v@), i as int),
{
    let ghost all = nvml_process_views(v@);
    let mut j: usize = 0;
    while j < i
        invariant
            j <= i < v@.len(),
            all == nvml_process_views(v@),
            forall|k: int| 0 <= k < j ==> (#[trigger] all[k]).pid != all[i as int].pid,
        decreases i - j,
    {
        if v[j].pid == v[i].pid {
            assert(all[j as int].pid == all[i as int].pid);
            return true;
        }
        assert(all[j as int].pid != all[i as int].pid);
        j = j + 1;
    }
    false
}

/// The processes for a snapshot, each pid once.
pub fn collect_processes(v: &Vec<NvmlProcess>) -> (r: Vec<GresProcessInfo>)
    ensures
        process_views(r@) == process_entries(nvml_process_views(v@), v@.len() as int),
{
    let ghost all = nvml_process_views(v@);
    let mut out: Vec<GresProcessInfo> = Vec::new();
    let mut i: usize = 0;
    assert(process_views(out@) =~= Seq::empty());
    while i < v.len()
        invariant
            i <= v@.len(),
            all == nvml_process_views(v@),
            process_views(out@) == process_entries(all, i as int),
        decreases v@.len() - i,
    {
        if !seen_before(v, i) {
            let p = &v[i];
            let e = GresProcessInfo {
                pid: p.pid,
                uid: match p.uid {
                    Some(u) => u,
                    None => u32::MAX,
                },
                command: clone_opt_text(&p.command),
                used_memory_mb: match p.used_bytes {
                    Some(b) => b / 1024 / 1024,
                    None => 0,
                },
            };
            assert(e@ == process_entry(all[i as int]));
            assert(process_views(out@.push(e)) =~= process_views(out@).push(e@));
            out.push(e);
        }
        i = i + 1;
    }
    out
}

/// The snapshot for what the library reports.
pub fn snapshot_from_devices(
    hostname: &str,
    driver_version: &Option<String>,
    devices: &Vec<NvmlDevice>,
) -> (r: ServerGresSnapshot)
    requires
        devices@.len() <= 255,
    ensures
        r@ == nvml_snapshot(
            hostname@,
            opt_text(*driver_version),
            devices@.map_values(|d: NvmlDevice| d@),
        ),
{
    let ghost wanted = nvml_snapshot(
        hostname@,
        opt_text(*driver_version),
        devices@.map_values(|d: NvmlDevice| d@),
    ).gres;
    let mut gres: Vec<GresInfo> = Vec::new();
    let mut i: usize = 0;
    while i < devices.len()
        invariant
            i <= devices@.len() <= 255,
            wanted == nvml_snapshot(
                hostname@,
                opt_text(*driver_version),
                devices@.map_values(|d: NvmlDevice| d@),
            ).gres,
            gres_views(gres@) == wanted.take(i as int),
        decreases devices@.len() - i,
    {
        let d = &devices[i];
        let g = GresInfo {
            index: i as u8,
            name: match &d.name {
                Some(n) => n.clone(),
                None => "unknown".to_owned(),
            },
            temperature_c: d.temperature_c,
            uuid: clone_opt_text(&d.uuid),
            memory: GresMemory {
                used_mb: d.memory_used_bytes / 1024 / 1024,
                total_mb: d.memory_total_bytes / 1024 / 1024,
            },
            utilization: GresUtilization {
                gres_percent: as_percent(d.gpu_percent),
                memory_percent: as_percent(d.memory_percent),
            },
            processes: collect_processes(&d.processes),
        };
        assert(wanted[i as int] == gres_entry(d@, i as u8));
        assert(g@ == gres_entry(d@, i as u8));
        assert(gres_views(gres@.push(g)) =~= gres_views(gres@).push(g@));
        gres.push(g);
        i = i + 1;
        assert(gres_views(gres@) =~= wanted.take(i as int));
    }
    assert(wanted.take(i as int) =~= wanted);
    ServerGresSnapshot {
        hostname: hostname.to_owned(),
        driver_version: clone_opt_text(driver_version),
        gres,
    }
}

/// The command in the `comm` file of a process; none if it is blank.
pub fn command_from_comm(text: &str) -> (r: Option<String>)
    ensures
        match r {
            Some(c) => c@ == trimmed(text@) && c@.len() > 0,
            None => trimmed(text@).len() == 0,
        },
{
    let c = trim(text);
    if c.as_str().is_empty() {
        None
    } else {
        Some(c)
    }
}

/// The first line that begins with `mark`.
pub open spec fn line_with(list: Seq<Seq<char>>, mark: Seq<char>) -> Option<Seq<char>>
    decreases list.len(),
{
    if list.len() == 0 {
        None
    } else if begins(list[0], mark) {
        Some(list[0])
    } else {
        line_with(list.drop_first(), mark)
    }
}

/// The owner in the `status` file of a process: the first number behind `Uid:`.
pub open spec fn status_uid(text: Seq<char>) -> Option<nat> {
    match line_with(lines(text), "Uid:"@) {
        Some(line) => if words(line).len() > 1 {
            unsigned_value(words(line)[1], u32::MAX as nat)
        } else {
            None
        },
        None => None,
    }
}

/// The owner in the `status` file of a process.
pub fn uid_from_status(text: &str) -> (r: Option<u32>)
    ensures
        match r {
            Some(u) => status_uid(text@) == Some(u as nat),
            None => status_uid(text@) is None,
        },
{
    let list = split_lines(text);
    let ghost all = texts(list@);
    let mut i: usize = 0;
    assert(all.skip(0) =~= all);
    while i < list.len()
        invariant
            i <= list@.len(),
            all == texts(list@),
            all == lines(text@),
            line_with(all, "Uid:"@) == line_with(all.skip(i as int), "Uid:"@),
        decreases list@.len() - i,
    {
        assert(all.skip(i as int)[0] == list@[i as int]@);
        if starts_with(list[i].as_str(), "Uid:") {
            let parts = split_words(list[i].as_str());
            assert(texts(parts@).len() == parts@.len());
            if parts.len() > 1 {
                assert(texts(parts@)[1] == parts@[1]@);
                return match parse_unsigned(parts[1].as_str(), u32::MAX as u64) {
                    Some(v) => Some(v as u32),
                    None => None,
                };
            }
            return None;
        }
        assert(all.skip(i as int).drop_first() =~= all.skip(i + 1));
        i = i + 1;
    }
    None
}

/// Whether the value of an environment variable means yes.
pub open spec fn means_yes(value: Option<Seq<char>>) -> bool {
    match value {
        Some(v) => v == "1"@ || lowered(v) == lowered("true"@) || lowered(v) == lowered("yes"@),
        None => false,
    }
}

/// Whether the value of an environment variable means yes.
pub fn env_truthy(value: Option<&str>) -> (r: bool)
    ensures
        r == means_yes(
            match value {
                Some(v) => Some(v@),
                None => None,
            },
        ),
{
    match value {
        Some(v) => same(v, "1") || same_ignoring_case(v, "true") || same_ignoring_case(v, "yes"),
        None => false,
    }
}

/// The library to load: the configured path without white space at its ends,
/// or none if it is blank.
pub fn library_path(configured: Option<&str>) -> (r: Option<String>)
    ensures
        match r {
            Some(p) => configured is Some && p@ == trimmed(configured->0@) && p@.len() > 0,
            None => configured is None || trimmed(configured->0@).len() == 0,
        },
{
    match configured {
        Some(raw) => {
            let p = trim(raw);
            if p.as_str().is_empty() {
                None
            } else {
                Some(p)
            }
        },
        None => None,
    }
}

} // verus!
