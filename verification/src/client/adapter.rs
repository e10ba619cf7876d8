//! From the rows of the client to what its frontends are shown.

use vstd::prelude::*;
use vstd::utf8::{decode_utf8, encode_utf8, valid_utf8};
use std::collections::HashMap;
use crate::client::base64::{base64_bytes, decode_base64};
use crate::client::cache::{
    row_matches, row_views, CacheMap, ConnectionCacheEntry, RowView,
};
use crate::client::filter::{FilterView, NodeFilter};
use crate::client::json::{
    json_number, json_number_at, json_numbers, json_numbers_at, json_text, json_text_at,
};
use crate::common::net::{addr_text, AddrView, NodeAddr};
use crate::common::payload::{decode_snapshot_payload, snapshot_in};
use crate::common::snapshot::{
    clone_opt_text, opt_text, process_views, GpuProcessInfo, ServerGpuSnapshot, SnapshotView,
};
use crate::common::snapshot::GresView as GresModel;
use crate::common::snapshot::ProcessView as ProcessModel;
use crate::server::model::count_byte;
use crate::text::{
    before, decimal, decimal_of, lemma_text_before_total, lemma_text_before_trans, lossy_text,
    opt_str, parse_unsigned, same, split, split_on, strict_text, text_before, text_in, texts, trim,
    trimmed, unsigned_value,
};

verus! {

broadcast use vstd::std_specs::hash::group_hash_axioms;

/// What a frontend asks for.
#[derive(Debug, Clone, PartialEq, Eq)]
pub struct QueryRequest {
    pub filter: Option<String>,
    pub user: Option<String>,
}

/// A process as it is shown.
#[derive(Debug, PartialEq, Eq)]
pub struct ProcessView {
    pub uid: u32,
    pub username: String,
    pub pid: u32,
    pub command: Option<String>,
    pub used_memory_mb: u32,
}

/// A resource as it is shown.
#[derive(Debug, PartialEq, Eq)]
pub struct GpuView {
    pub index: u8,
    pub name: String,
    pub temperature_c: Option<u32>,
    pub util: u8,
    pub mem_used_mb: u32,
    pub mem_total_mb: u32,
    /// The processes, where the node reports any.
    pub processes: Option<Vec<ProcessView>>,
}

/// A node as it is shown.
#[derive(Debug, PartialEq, Eq)]
pub struct NodeView {
    pub connection_id: String,
    pub hostname: String,
    pub addr: String,
    pub timestamp_ms: i64,
    pub driver_version: Option<String>,
    pub num: u8,
    pub stale: bool,
    pub error: Option<String>,
    pub delay_us: Option<u64>,
    pub gpus: Vec<GpuView>,
}

/// What is said of an answer as a whole.
#[derive(Debug, PartialEq, Eq)]
pub struct QueryMeta {
    pub status: String,
    pub timestamp_ms: i64,
    pub node_count: usize,
    pub errors: Vec<String>,
}

impl Default for QueryMeta {
    fn default() -> (r: QueryMeta)
        ensures
            r.status@ == "unknown"@,
            r.timestamp_ms == 0,
            r.node_count == 0,
            r.errors@.len() == 0,
    {
        QueryMeta {
            status: "unknown".to_owned(),
            timestamp_ms: 0,
            node_count: 0,
            errors: Vec::new(),
        }
    }
}

/// The answer to a frontend.
#[derive(Debug, PartialEq, Eq)]
pub struct QueryResponse {
    pub meta: QueryMeta,
    pub nodes: Vec<NodeView>,
}

// ---------------------------------------------------------------------------
// Models

pub struct ProcessShown {
    pub uid: u32,
    pub username: Seq<char>,
    pub pid: u32,
    pub command: Option<Seq<char>>,
    pub used_memory_mb: u32,
}

pub struct GpuShown {
    pub index: u8,
    pub name: Seq<char>,
    pub temperature_c: Option<u32>,
    pub util: u8,
    pub mem_used_mb: u32,
    pub mem_total_mb: u32,
    pub processes: Option<Seq<ProcessShown>>,
}

pub struct NodeShown {
    pub connection_id: Seq<char>,
    pub hostname: Seq<char>,
    pub addr: Seq<char>,
    pub timestamp_ms: i64,
    pub driver_version: Option<Seq<char>>,
    pub num: u8,
    pub stale: bool,
    pub error: Option<Seq<char>>,
    pub delay_us: Option<u64>,
    pub gpus: Seq<GpuShown>,
}

impl View for ProcessView {
    type V = ProcessShown;

    open spec fn view(&self) -> ProcessShown {
        ProcessShown {
            uid: self.uid,
            username: self.username@,
            pid: self.pid,
            command: opt_text(self.command),
            used_memory_mb: self.used_memory_mb,
        }
    }
}

pub open spec fn shown_processes(v: Seq<ProcessView>) -> Seq<ProcessShown> {
    v.map_values(|p: ProcessView| p@)
}

impl View for GpuView {
    type V = GpuShown;

    open spec fn view(&self) -> GpuShown {
        GpuShown {
            index: self.index,
            name: self.name@,
            temperature_c: self.temperature_c,
            util: self.util,
            mem_used_mb: self.mem_used_mb,
            mem_total_mb: self.mem_total_mb,
            processes: match self.processes {
                Some(v) => Some(shown_processes(v@)),
                None => None,
            },
        }
    }
}

pub open spec fn shown_gpus(v: Seq<GpuView>) -> Seq<GpuShown> {
    v.map_values(|g: GpuView| g@)
}

impl View for NodeView {
    type V = NodeShown;

    open spec fn view(&self) -> NodeShown {
        NodeShown {
            connection_id: self.connection_id@,
            hostname: self.hostname@,
            addr: self.addr@,
            timestamp_ms: self.timestamp_ms,
            driver_version: opt_text(self.driver_version),
            num: self.num,
            stale: self.stale,
            error: opt_text(self.error),
            delay_us: self.delay_us,
            gpus: shown_gpus(self.gpus@),
        }
    }
}

pub open spec fn shown_nodes(v: Seq<NodeView>) -> Seq<NodeShown> {
    v.map_values(|n: NodeView| n@)
}

// ---------------------------------------------------------------------------
// Names of users

/// The name of a user: by the table, else the number; a question mark for an
/// owner that could not be found.
pub open spec fn user_name(uid: u32, names: Map<u32, String>) -> Seq<char> {
    if uid == u32::MAX {
        "?"@
    } else if names.contains_key(uid) {
        names[uid]@
    } else {
        decimal(uid as nat)
    }
}

/// The name of a user.
pub fn username_for_uid(uid: u32, names: &HashMap<u32, String>) -> (r: String)
    ensures
        r@ == user_name(uid, names@),
{
    if uid == u32::MAX {
        return "?".to_owned();
    }
    match names.get(&uid) {
        Some(name) => name.clone(),
        None => decimal_of(uid as u64),
    }
}

/// The name in a line of the user database: the first field, if it is not
/// blank.
pub fn username_from_passwd(line: &str) -> (r: Option<String>)
    ensures
        match r {
            Some(name) => name@ == trimmed(split_on(line@, ':')[0]) && name@.len() > 0,
            None => trimmed(split_on(line@, ':')[0]).len() == 0,
        },
{
    let parts = split(line, ':');
    assert(texts(parts@)[0] == parts@[0]@);
    let name = trim(parts[0].as_str());
    if name.as_str().is_empty() {
        None
    } else {
        Some(name)
    }
}

// ---------------------------------------------------------------------------
// Snapshots

/// `n`, or the largest 32-bit number if that is less.
pub open spec fn clamped(n: u64) -> u32 {
    if n > u32::MAX {
        u32::MAX
    } else {
        n as u32
    }
}

fn clamp_u64_to_u32(value: u64) -> (r: u32)
    ensures
        r == clamped(value),
{
    if value > u32::MAX as u64 {
        u32::MAX
    } else {
        value as u32
    }
}

pub open spec fn process_shown(p: ProcessModel, names: Map<u32, String>) -> ProcessShown {
    ProcessShown {
        uid: p.uid,
        username: user_name(p.uid, names),
        pid: p.pid,
        command: p.command,
        used_memory_mb: clamped(p.used_memory_mb),
    }
}

pub open spec fn gpu_shown(g: GresModel, names: Map<u32, String>) -> GpuShown {
    GpuShown {
        index: g.index,
        name: g.name,
        temperature_c: g.temperature_c,
        util: if g.utilization.gres_percent > 100 {
            100
        } else {
            g.utilization.gres_percent
        },
        mem_used_mb: clamped(g.memory.used_mb),
        mem_total_mb: clamped(g.memory.total_mb),
        processes: Some(g.processes.map_values(|p: ProcessModel| process_shown(p, names))),
    }
}

/// The resources of a snapshot as they are shown.
pub open spec fn gpus_shown(s: SnapshotView, names: Map<u32, String>) -> Seq<GpuShown> {
    s.gres.map_values(|g: GresModel| gpu_shown(g, names))
}

fn process_views_from_snapshot(processes: &Vec<GpuProcessInfo>, names: &HashMap<u32, String>) -> (r:
    Vec<ProcessView>)
    ensures
        shown_processes(r@) == process_views(processes@).map_values(
            |p: ProcessModel| process_shown(p, names@),
        ),
{
    let ghost wanted = process_views(processes@).map_values(
        |p: ProcessModel| process_shown(p, names@),
    );
    let mut out: Vec<ProcessView> = Vec::new();
    let mut i: usize = 0;
    while i < processes.len()
        invariant
            i <= processes@.len(),
            wanted == process_views(processes@).map_values(
                |p: ProcessModel| process_shown(p, names@),
            ),
            shown_processes(out@) == wanted.take(i as int),
        decreases processes@.len() - i,
    {
        let p = &processes[i];
        let v = ProcessView {
            uid: p.uid,
            username: username_for_uid(p.uid, names),
            pid: p.pid,
            command: clone_opt_text(&p.command),
            used_memory_mb: clamp_u64_to_u32(p.used_memory_mb),
        };
        assert(wanted[i as int] == v@);
        assert(shown_processes(out@.push(v)) =~= shown_processes(out@).push(v@));
        out.push(v);
        i = i + 1;
        assert(shown_processes(out@) =~= wanted.take(i as int));
    }
    assert(wanted.take(i as int) =~= wanted);
    out
}

/// The resources of a snapshot as they are shown.
pub fn gpu_views_from_snapshot(snapshot: &ServerGpuSnapshot, names: &HashMap<u32, String>) -> (r: Vec<
    GpuView,
>)
    ensures
        shown_gpus(r@) == gpus_shown(snapshot@, names@),
{
    let ghost wanted = gpus_shown(snapshot@, names@);
    let mut out: Vec<GpuView> = Vec::new();
    let mut i: usize = 0;
    while i < snapshot.gres.len()
        invariant
            i <= snapshot.gres@.len(),
            wanted == gpus_shown(snapshot@, names@),
            shown_gpus(out@) == wanted.take(i as int),
        decreases snapshot.gres@.len() - i,
    {
        let g = &snapshot.gres[i];
        let v = GpuView {
            index: g.index,
            name: g.name.clone(),
            temperature_c: g.temperature_c,
            util: if g.utilization.gres_percent > 100 {
                100
            } else {
                g.utilization.gres_percent
            },
            mem_used_mb: clamp_u64_to_u32(g.memory.used_mb),
            mem_total_mb: clamp_u64_to_u32(g.memory.total_mb),
            processes: Some(process_views_from_snapshot(&g.processes, names)),
        };
        assert(snapshot@.gres[i as int] == g@);
        assert(wanted[i as int] == v@);
        assert(shown_gpus(out@.push(v)) =~= shown_gpus(out@).push(v@));
        out.push(v);
        i = i + 1;
        assert(shown_gpus(out@) =~= wanted.take(i as int));
    }
    assert(wanted.take(i as int) =~= wanted);
    out
}

/// A node with a snapshot as it is shown.
pub open spec fn node_shown(
    connection_id: Seq<char>,
    addr: AddrView,
    timestamp_ms: i64,
    s: SnapshotView,
    delay_us: Option<u64>,
    names: Map<u32, String>,
) -> NodeShown {
    NodeShown {
        connection_id,
        hostname: s.hostname,
        addr: addr_text(addr),
        timestamp_ms,
        driver_version: s.driver_version,
        num: count_byte(s.gres.len()),
        stale: false,
        error: None,
        delay_us,
        gpus: gpus_shown(s, names),
    }
}

/// A node with a snapshot as it is shown.
pub fn node_view_from_snapshot(
    connection_id: &str,
    addr: &NodeAddr,
    timestamp_ms: i64,
    snapshot: &ServerGpuSnapshot,
    delay_us: Option<u64>,
    names: &HashMap<u32, String>,
) -> (r: NodeView)
    ensures
        r@ == node_shown(connection_id@, addr@, timestamp_ms, snapshot@, delay_us, names@),
{
    let n: usize = snapshot.gres.len();
    let num: u8 = if n > 255 {
        255
    } else {
        n as u8
    };
    NodeView {
        connection_id: connection_id.to_owned(),
        hostname: snapshot.hostname.clone(),
        addr: addr.text(),
        timestamp_ms,
        driver_version: clone_opt_text(&snapshot.driver_version),
        num,
        stale: false,
        error: None,
        delay_us,
        gpus: gpu_views_from_snapshot(snapshot, names),
    }
}

// ---------------------------------------------------------------------------
// Payloads of older nodes

/// Whether an item is a number that fits a byte.
pub open spec fn is_byte(o: Option<u64>) -> bool {
    o is Some && o->0 <= 255
}

/// The bytes in a list of numbers, if each is one.
pub open spec fn numbers_as_bytes(items: Seq<Option<u64>>) -> Option<Seq<u8>> {
    if forall|i: int| 0 <= i < items.len() ==> is_byte(#[trigger] items[i]) {
        Some(items.map_values(|o: Option<u64>| o->0 as u8))
    } else {
        None
    }
}

/// The payload in a JSON answer: in base 64, or as an array of bytes.
pub open spec fn payload_in_json(raw: Seq<char>) -> Option<Seq<u8>> {
    match json_text(raw, "payload_b64"@) {
        Some(s) => base64_bytes(encode_utf8(s)),
        None => match json_numbers(raw, "payload"@) {
            Some(items) => numbers_as_bytes(items),
            None => None,
        },
    }
}

/// The payload in a JSON answer.
pub fn payload_bytes_from_server_json(raw: &str) -> (r: Option<Vec<u8>>)
    ensures
        match r {
            Some(p) => payload_in_json(raw@) == Some(p@),
            None => payload_in_json(raw@) is None,
        },
{
    match json_text_at(raw, "payload_b64") {
        Some(s) => {
            return decode_base64(s.as_str().as_bytes());
        },
        None => {},
    }
    let items = match json_numbers_at(raw, "payload") {
        Some(v) => v,
        None => {
            return None;
        },
    };
    numbers_to_bytes(&items)
}

/// The bytes in a list of numbers, if each is one.
pub fn numbers_to_bytes(items: &Vec<Option<u64>>) -> (r: Option<Vec<u8>>)
    ensures
        match r {
            Some(p) => numbers_as_bytes(items@) == Some(p@),
            None => numbers_as_bytes(items@) is None,
        },
{
    let mut out: Vec<u8> = Vec::new();
    let mut i: usize = 0;
    while i < items.len()
        invariant
            i <= items@.len(),
            out@.len() == i,
            forall|j: int| 0 <= j < i ==> is_byte(#[trigger] items@[j]),
            forall|j: int| 0 <= j < i ==> #[trigger] out@[j] == items@[j]->0 as u8,
        decreases items@.len() - i,
    {
        match items[i] {
            Some(v) => {
                if v > 255 {
                    assert(!is_byte(items@[i as int]));
                    return None;
                }
                out.push(v as u8);
            },
            None => {
                assert(!is_byte(items@[i as int]));
                return None;
            },
        }
        i = i + 1;
    }
    assert(out@ =~= items@.map_values(|o: Option<u64>| o->0 as u8));
    Some(out)
}

/// The snapshot in a JSON answer of an older node.
pub open spec fn snapshot_in_answer(raw: Seq<u8>) -> Option<SnapshotView> {
    if !valid_utf8(raw) {
        None
    } else {
        match payload_in_json(decode_utf8(raw)) {
            Some(p) => snapshot_in(p),
            None => None,
        }
    }
}

/// The snapshot in a JSON answer of an older node.
fn decode_answer(raw: &[u8]) -> (r: Option<ServerGpuSnapshot>)
    ensures
        match r {
            Some(s) => snapshot_in_answer(raw@) == Some(s@),
            None => snapshot_in_answer(raw@) is None,
        },
{
    let s = match strict_text(raw) {
        Some(s) => s,
        None => {
            return None;
        },
    };
    let payload = match payload_bytes_from_server_json(s.as_str()) {
        Some(p) => p,
        None => {
            return None;
        },
    };
    match decode_snapshot_payload(payload.as_slice()) {
        Ok(snapshot) => Some(snapshot),
        Err(_) => None,
    }
}

/// The resources in a JSON answer of an older node that carries a payload, with
/// the time at which they were read.
pub fn parse_payload_view(raw: &[u8], names: &HashMap<u32, String>, now_ms: i64) -> (r: Option<
    (i64, Vec<GpuView>),
>)
    ensures
        match snapshot_in_answer(raw@) {
            Some(s) => r matches Some((t, v)) && t == now_ms && shown_gpus(v@) == gpus_shown(
                s,
                names@,
            ),
            None => r is None,
        },
{
    match decode_answer(raw) {
        Some(snapshot) => Some((now_ms, gpu_views_from_snapshot(&snapshot, names))),
        None => None,
    }
}

/// A resource of which only two figures are known.
pub open spec fn bare_gpu(index: u8, util: u8, used: u32, total: u32) -> GpuShown {
    GpuShown {
        index,
        name: "GPU"@,
        temperature_c: None,
        util,
        mem_used_mb: used,
        mem_total_mb: total,
        processes: None,
    }
}

fn make_bare(index: u8, util: u8, used: u32, total: u32) -> (r: GpuView)
    ensures
        r@ == bare_gpu(index, util, used, total),
{
    GpuView {
        index,
        name: "GPU".to_owned(),
        temperature_c: None,
        util,
        mem_used_mb: used,
        mem_total_mb: total,
        processes: None,
    }
}

/// The resource in one item of a list: index, utilization, used and total
/// memory, with commas between.
pub open spec fn csv_gpu(item: Seq<char>) -> Option<GpuShown> {
    let parts = split_on(item, ',');
    if parts.len() != 4 {
        None
    } else {
        match (
            unsigned_value(parts[0], u8::MAX as nat),
            unsigned_value(parts[1], u8::MAX as nat),
            unsigned_value(parts[2], u32::MAX as nat),
            unsigned_value(parts[3], u32::MAX as nat),
        ) {
            (Some(a), Some(b), Some(c), Some(d)) => Some(
                bare_gpu(a as u8, b as u8, c as u32, d as u32),
            ),
            _ => None,
        }
    }
}

/// The resources in a list of items; an item that is none is left out.
pub open spec fn csv_gpus(items: Seq<Seq<char>>) -> Seq<GpuShown>
    decreases items.len(),
{
    if items.len() == 0 {
        Seq::empty()
    } else {
        let before = csv_gpus(items.drop_last());
        match csv_gpu(items.last()) {
            Some(g) => before.push(g),
            None => before,
        }
    }
}

fn parse_csv_item(item: &str) -> (r: Option<GpuView>)
    ensures
        match r {
            Some(g) => csv_gpu(item@) == Some(g@),
            None => csv_gpu(item@) is None,
        },
{
    let parts = split(item, ',');
    assert(texts(parts@).len() == parts@.len());
    if parts.len() != 4 {
        return None;
    }
    assert(texts(parts@)[0] == parts@[0]@);
    assert(texts(parts@)[1] == parts@[1]@);
    assert(texts(parts@)[2] == parts@[2]@);
    assert(texts(parts@)[3] == parts@[3]@);
    let a: u64 = match parse_unsigned(parts[0].as_str(), u8::MAX as u64) {
        Some(v) => v,
        None => {
            return None;
        },
    };
    let b: u64 = match parse_unsigned(parts[1].as_str(), u8::MAX as u64) {
        Some(v) => v,
        None => {
            return None;
        },
    };
    let c: u64 = match parse_unsigned(parts[2].as_str(), u32::MAX as u64) {
        Some(v) => v,
        None => {
            return None;
        },
    };
    let d: u64 = match parse_unsigned(parts[3].as_str(), u32::MAX as u64) {
        Some(v) => v,
        None => {
            return None;
        },
    };
    Some(make_bare(a as u8, b as u8, c as u32, d as u32))
}

/// The resources in the list form: items with semicolons between.
pub fn parse_round1_csv(s: &str) -> (r: Vec<GpuView>)
    ensures
        shown_gpus(r@) == csv_gpus(split_on(s@, ';')),
{
    let items = split(s, ';');
    let ghost all = texts(items@);
    let mut out: Vec<GpuView> = Vec::new();
    let mut i: usize = 0;
    assert(all.take(0) =~= Seq::empty());
    assert(shown_gpus(out@) =~= Seq::empty());
    while i < items.len()
        invariant
            i <= items@.len(),
            all == texts(items@),
            shown_gpus(out@) == csv_gpus(all.take(i as int)),
        decreases items@.len() - i,
    {
        proof {
            assert(all.take(i + 1).drop_last() =~= all.take(i as int));
            assert(all.take(i + 1).last() == items@[i as int]@);
        }
        match parse_csv_item(items[i].as_str()) {
            Some(g) => {
                assert(shown_gpus(out@.push(g)) =~= shown_gpus(out@).push(g@));
                out.push(g);
            },
            None => {},
        }
        i = i + 1;
    }
    assert(all.take(i as int) =~= all);
    out
}

/// The resources in the summary form: their number, at most 255, and their
/// average utilization.
pub open spec fn summary_gpus(count: u64, average: u64) -> Seq<GpuShown> {
    let n: nat = if count > 255 {
        255
    } else {
        count as nat
    };
    let util: u8 = if average > 100 {
        100
    } else {
        average as u8
    };
    Seq::new(n, |i: int| bare_gpu(i as u8, util, 0, 0))
}

/// The resources in the summary form.
pub fn gpus_from_summary(count: u64, average: u64) -> (r: Vec<GpuView>)
    ensures
        shown_gpus(r@) == summary_gpus(count, average),
{
    let n: u64 = if count > 255 {
        255
    } else {
        count
    };
    let util: u8 = if average > 100 {
        100
    } else {
        average as u8
    };
    let ghost wanted = summary_gpus(count, average);
    let mut out: Vec<GpuView> = Vec::new();
    let mut i: u64 = 0;
    assert(shown_gpus(out@) =~= wanted.take(0));
    while i < n
        invariant
            i <= n <= 255,
            wanted == Seq::new(n as nat, |i: int| bare_gpu(i as u8, util, 0, 0)),
            shown_gpus(out@) == wanted.take(i as int),
        decreases n - i,
    {
        let g = make_bare(i as u8, util, 0, 0);
        assert(wanted[i as int] == g@);
        assert(shown_gpus(out@.push(g)) =~= shown_gpus(out@).push(g@));
        out.push(g);
        i = i + 1;
        assert(shown_gpus(out@) =~= wanted.take(i as int));
    }
    assert(wanted.take(i as int) =~= wanted);
    out
}

/// The resources in an answer of an older node without a payload.
pub open spec fn legacy_gpus(raw: Seq<u8>) -> Seq<GpuShown> {
    let s = text_in(raw);
    match (json_number(s, "gpu_num"@), json_number(s, "avg_utilization"@)) {
        (Some(n), Some(u)) => summary_gpus(n, u),
        _ => csv_gpus(split_on(s, ';')),
    }
}

/// The resources in an answer of an older node without a payload.
pub fn parse_legacy_gpu_views(raw: &[u8]) -> (r: Vec<GpuView>)
    ensures
        shown_gpus(r@) == legacy_gpus(raw@),
{
    let s = lossy_text(raw);
    match parse_round1_server_json(s.as_str()) {
        Some(v) => v,
        None => parse_round1_csv(s.as_str()),
    }
}

/// The resources in a JSON summary.
pub fn parse_round1_server_json(s: &str) -> (r: Option<Vec<GpuView>>)
    ensures
        match (json_number(s@, "gpu_num"@), json_number(s@, "avg_utilization"@)) {
            (Some(n), Some(u)) => r matches Some(v) && shown_gpus(v@) == summary_gpus(n, u),
            _ => r is None,
        },
{
    let n: u64 = match json_number_at(s, "gpu_num") {
        Some(n) => n,
        None => {
            return None;
        },
    };
    let u: u64 = match json_number_at(s, "avg_utilization") {
        Some(u) => u,
        None => {
            return None;
        },
    };
    Some(gpus_from_summary(n, u))
}

// ---------------------------------------------------------------------------
// Rows

/// A row as it is shown.
pub open spec fn row_shown(row: RowView, names: Map<u32, String>, now_ms: i64) -> NodeShown {
    match row.last_snapshot {
        Some(s) => node_shown(
            row.connection_id,
            row.addr,
            row.record_timestamp,
            s,
            row.last_query_latency_us,
            names,
        ),
        None => NodeShown {
            connection_id: row.connection_id,
            hostname: row.hostname,
            addr: addr_text(row.addr),
            timestamp_ms: if snapshot_in_answer(row.server_gres) is Some {
                now_ms
            } else {
                row.record_timestamp
            },
            driver_version: None,
            num: row.num,
            stale: true,
            error: row.last_error,
            delay_us: row.last_query_latency_us,
            gpus: match snapshot_in_answer(row.server_gres) {
                Some(s) => gpus_shown(s, names),
                None => legacy_gpus(row.server_gres),
            },
        },
    }
}

/// A row as it is shown.
pub fn node_view_from_entry(
    entry: &ConnectionCacheEntry,
    names: &HashMap<u32, String>,
    now_ms: i64,
) -> (r: NodeView)
    ensures
        r@ == row_shown(entry@, names@, now_ms),
{
    match &entry.last_snapshot {
        Some(snapshot) => {
            return node_view_from_snapshot(
                entry.connection_id.as_str(),
                &entry.addr,
                entry.record_timestamp,
                snapshot,
                entry.last_query_latency_us,
                names,
            );
        },
        None => {},
    }
    let (timestamp_ms, gpus) = match parse_payload_view(
        entry.server_gres.as_slice(),
        names,
        now_ms,
    ) {
        Some((t, v)) => (t, v),
        None => (entry.record_timestamp, parse_legacy_gpu_views(entry.server_gres.as_slice())),
    };
    NodeView {
        connection_id: entry.connection_id.clone(),
        hostname: entry.hostname.clone(),
        addr: entry.addr.text(),
        timestamp_ms,
        driver_version: None,
        num: entry.num,
        stale: true,
        error: clone_opt_text(&entry.last_error),
        delay_us: entry.last_query_latency_us,
        gpus,
    }
}

/// The processes of a user.
pub open spec fn processes_of(v: Seq<ProcessShown>, user: Seq<char>) -> Seq<ProcessShown>
    decreases v.len(),
{
    if v.len() == 0 {
        Seq::empty()
    } else {
        let before = processes_of(v.drop_last(), user);
        if v.last().username == user {
            before.push(v.last())
        } else {
            before
        }
    }
}

/// A resource with the processes of a user alone.
pub open spec fn gpu_for_user(g: GpuShown, user: Seq<char>) -> GpuShown {
    GpuShown {
        processes: match g.processes {
            Some(v) => Some(processes_of(v, user)),
            None => None,
        },
        ..g
    }
}

/// A node with the processes of a user alone; no resource is dropped. Without a
/// user, the node as it is.
pub open spec fn node_for_user(n: NodeShown, user: Option<Seq<char>>) -> NodeShown {
    match user {
        Some(u) => if u.len() == 0 {
            n
        } else {
            NodeShown { gpus: n.gpus.map_values(|g: GpuShown| gpu_for_user(g, u)), ..n }
        },
        None => n,
    }
}

/// Leaves only the processes of a user on a node.
pub fn apply_user_filter(node: &mut NodeView, user: Option<&str>)
    ensures
        final(node)@ == node_for_user(old(node)@, opt_str(user)),
{
    let user = match user {
        Some(u) => u,
        None => {
            return;
        },
    };
    if user.is_empty() {
        return;
    }
    let ghost before = node@;
    let n: usize = node.gpus.len();
    let mut i: usize = 0;
    let ghost wanted = before.gpus.map_values(|g: GpuShown| gpu_for_user(g, user@));
    while i < n
        invariant
            i <= n == node.gpus@.len() == before.gpus.len() == wanted.len(),
            wanted == before.gpus.map_values(|g: GpuShown| gpu_for_user(g, user@)),
            forall|j: int| 0 <= j < i ==> (#[trigger] node.gpus@[j])@ == wanted[j],
            forall|j: int| i <= j < n ==> (#[trigger] node.gpus@[j])@ == before.gpus[j],
            node@ == (NodeShown { gpus: shown_gpus(node.gpus@), ..before }),
        decreases n - i,
    {
        let g = &node.gpus[i];
        let processes = match &g.processes {
            Some(v) => Some(keep_user(v, user)),
            None => None,
        };
        let next = GpuView {
            index: g.index,
            name: g.name.clone(),
            temperature_c: g.temperature_c,
            util: g.util,
            mem_used_mb: g.mem_used_mb,
            mem_total_mb: g.mem_total_mb,
            processes,
        };
        assert(next@ == wanted[i as int]);
        node.gpus.set(i, next);
        i = i + 1;
    }
    assert(shown_gpus(node.gpus@) =~= wanted);
}

fn keep_user(v: &Vec<ProcessView>, user: &str) -> (r: Vec<ProcessView>)
    ensures
        shown_processes(r@) == processes_of(shown_processes(v@), user@),
{
    let ghost all = shown_processes(v@);
    let mut out: Vec<ProcessView> = Vec::new();
    let mut i: usize = 0;
    assert(all.take(0) =~= Seq::empty());
    assert(shown_processes(out@) =~= Seq::empty());
    while i < v.len()
        invariant
            i <= v@.len(),
            all == shown_processes(v@),
            shown_processes(out@) == processes_of(all.take(i as int), user@),
        decreases v@.len() - i,
    {
        proof {
            assert(all.take(i + 1).drop_last() =~= all.take(i as int));
            assert(all.take(i + 1).last() == v@[i as int]@);
        }
        if same(v[i].username.as_str(), user) {
            let p = &v[i];
            let copy = ProcessView {
                uid: p.uid,
                username: p.username.clone(),
                pid: p.pid,
                command: clone_opt_text(&p.command),
                used_memory_mb: p.used_memory_mb,
            };
            assert(shown_processes(out@.push(copy)) =~= shown_processes(out@).push(copy@));
            out.push(copy);
        }
        i = i + 1;
    }
    assert(all.take(i as int) =~= all);
    out
}

// ---------------------------------------------------------------------------
// Answers

/// Whether nodes are in the order of their connection ids.
pub open spec fn in_id_order(v: Seq<NodeShown>) -> bool {
    forall|i: int, j: int|
        0 <= i < j < v.len() ==> !text_before(
            (#[trigger] v[j]).connection_id,
            (#[trigger] v[i]).connection_id,
        )
}

/// Whether `keys` are the rows that match a filter, each once.
pub open spec fn selects(
    keys: Seq<Seq<char>>,
    rows: Map<Seq<char>, RowView>,
    filter: FilterView,
) -> bool {
    &&& keys.no_duplicates()
    &&& forall|k: Seq<char>|
        keys.contains(k) <==> #[trigger] rows.contains_key(k) && row_matches(rows[k], filter)
}

/// The nodes for a list of rows.
pub open spec fn nodes_for(
    keys: Seq<Seq<char>>,
    rows: Map<Seq<char>, RowView>,
    user: Option<Seq<char>>,
    names: Map<u32, String>,
    now_ms: i64,
) -> Seq<NodeShown> {
    keys.map_values(
        |k: Seq<char>| node_for_user(row_shown(rows[k], names, now_ms), user),
    )
}

/// Whether `nodes` are those of the rows that match, in the order of their
/// connection ids.
pub open spec fn answers(
    rows: Map<Seq<char>, RowView>,
    filter: FilterView,
    user: Option<Seq<char>>,
    names: Map<u32, String>,
    now_ms: i64,
    nodes: Seq<NodeShown>,
) -> bool {
    in_id_order(nodes) && exists|keys: Seq<Seq<char>>| #[trigger]
        selects(keys, rows, filter) && nodes == nodes_for(keys, rows, user, names, now_ms)
}

fn place_for(nodes: &Vec<NodeView>, id: &str) -> (r: usize)
    requires
        in_id_order(shown_nodes(nodes@)),
    ensures
        r <= nodes@.len(),
        forall|j: int|
            0 <= j < r ==> !text_before(id@, (#[trigger] shown_nodes(nodes@)[j]).connection_id),
        forall|j: int|
            r <= j < nodes@.len() ==> text_before(
                id@,
                (#[trigger] shown_nodes(nodes@)[j]).connection_id,
            ),
{
    let ghost all = shown_nodes(nodes@);
    let n: usize = nodes.len();
    let mut i: usize = 0;
    while i < n && !before(id, nodes[i].connection_id.as_str())
        invariant
            i <= n == nodes@.len(),
            all == shown_nodes(nodes@),
            forall|j: int| 0 <= j < i ==> !text_before(id@, (#[trigger] all[j]).connection_id),
        decreases n - i,
    {
        assert(!text_before(id@, all[i as int].connection_id));
        i = i + 1;
    }
    proof {
        if i < n {
            assert(text_before(id@, all[i as int].connection_id));
            assert forall|j: int| i <= j < n implies text_before(
                id@,
                (#[trigger] all[j]).connection_id,
            ) by {
                if j > i {
                    let a = all[i as int].connection_id;
                    let b = all[j].connection_id;
                    assert(!text_before(b, a));
                    lemma_text_before_total(a, b);
                    if a != b {
                        lemma_text_before_trans(id@, a, b);
                    }
                }
            }
        }
    }
    i
}

proof fn lemma_order_insert(v: Seq<NodeShown>, i: int, n: NodeShown)
    requires
        in_id_order(v),
        0 <= i <= v.len(),
        forall|j: int|
            0 <= j < i ==> !text_before(n.connection_id, (#[trigger] v[j]).connection_id),
        forall|j: int|
            i <= j < v.len() ==> text_before(n.connection_id, (#[trigger] v[j]).connection_id),
    ensures
        in_id_order(v.insert(i, n)),
{
    let w = v.insert(i, n);
    assert forall|a: int, b: int| 0 <= a < b < w.len() implies !text_before(
        (#[trigger] w[b]).connection_id,
        (#[trigger] w[a]).connection_id,
    ) by {
        let x = if a < i {
            a
        } else {
            a - 1
        };
        let y = if b < i {
            b
        } else {
            b - 1
        };
        if a != i {
            assert(w[a] == v[x]);
        }
        if b != i {
            assert(w[b] == v[y]);
        }
        if a == i {
            lemma_text_before_total(n.connection_id, v[y].connection_id);
        } else if b != i {
            assert(!text_before(v[y].connection_id, v[x].connection_id));
        }
    }
}

proof fn lemma_insert_key(keys: Seq<Seq<char>>, i: int, k: Seq<char>)
    requires
        keys.no_duplicates(),
        0 <= i <= keys.len(),
        !keys.contains(k),
    ensures
        keys.insert(i, k).no_duplicates(),
        forall|x: Seq<char>| keys.insert(i, k).contains(x) <==> keys.contains(x) || x == k,
{
    let w = keys.insert(i, k);
    assert forall|x: Seq<char>| w.contains(x) <==> keys.contains(x) || x == k by {
        if keys.contains(x) {
            let j = keys.index_of(x);
            assert(keys[j] == x);
            if j < i {
                assert(w[j] == x);
            } else {
                assert(w[j + 1] == x);
            }
        }
        if x == k {
            assert(w[i] == x);
        }
        if w.contains(x) && x != k {
            let j = w.index_of(x);
            assert(w[j] == x);
            if j < i {
                assert(keys[j] == x);
            } else {
                assert(keys[j - 1] == x);
            }
        }
    }
    assert forall|a: int, b: int|
        0 <= a < w.len() && 0 <= b < w.len() && a != b implies w[a] != w[b] by {
        let x = if a < i {
            a
        } else {
            a - 1
        };
        let y = if b < i {
            b
        } else {
            b - 1
        };
        if a != i {
            assert(w[a] == keys[x]);
            assert(keys.contains(w[a]));
        }
        if b != i {
            assert(w[b] == keys[y]);
            assert(keys.contains(w[b]));
        }
    }
}

fn collect_nodes(
    rows: &CacheMap,
    filter: &NodeFilter,
    user: Option<&str>,
    names: &HashMap<u32, String>,
    now_ms: i64,
) -> (r: Vec<NodeView>)
    requires
        rows.wf(),
        filter.wf(),
    ensures
        answers(row_views(rows@), filter@, opt_str(user), names@, now_ms, shown_nodes(r@)),
{
    let ghost views = row_views(rows@);
    let ghost keys = rows.spec_keys();
    proof {
        rows.lemma_keys();
    }
    let mut out: Vec<NodeView> = Vec::new();
    let ghost mut picked: Seq<Seq<char>> = Seq::empty();
    let n: usize = rows.len();
    let mut i: usize = 0;
    assert(shown_nodes(out@) =~= nodes_for(picked, views, opt_str(user), names@, now_ms));
    while i < n
        invariant
            i <= n == keys.len(),
            rows.wf(),
            filter.wf(),
            views == row_views(rows@),
            keys == rows.spec_keys(),
            keys.no_duplicates(),
            forall|k: Seq<char>| keys.contains(k) <==> #[trigger] rows@.contains_key(k),
            picked.no_duplicates(),
            forall|k: Seq<char>|
                picked.contains(k) <==> #[trigger] keys.take(i as int).contains(k) && row_matches(
                    views[k],
                    filter@,
                ),
            shown_nodes(out@) == nodes_for(picked, views, opt_str(user), names@, now_ms),
            in_id_order(shown_nodes(out@)),
        decreases n - i,
    {
        let entry = rows.value_at(i);
        let ghost key = keys[i as int];
        let ghost old_picked = picked;
        proof {
            assert(views[key] == entry@);
            assert forall|k: Seq<char>| #[trigger] keys.take(i + 1).contains(k) <==> keys.take(
                i as int,
            ).contains(k) || k == key by {
                if keys.take(i as int).contains(k) {
                    let j = keys.take(i as int).index_of(k);
                    assert(keys.take(i as int)[j] == k);
                    assert(keys.take(i + 1)[j] == k);
                }
                assert(keys.take(i + 1)[i as int] == key);
                if keys.take(i + 1).contains(k) && k != key {
                    let j = keys.take(i + 1).index_of(k);
                    assert(keys.take(i + 1)[j] == k);
                    assert(keys.take(i as int)[j] == k);
                }
            }
            assert(!keys.take(i as int).contains(key)) by {
                if keys.take(i as int).contains(key) {
                    let j = keys.take(i as int).index_of(key);
                    assert(keys.take(i as int)[j] == key);
                    assert(keys[j] == keys[i as int]);
                }
            }
        }
        if entry.matches_filter(filter) {
            let mut node = node_view_from_entry(entry, names, now_ms);
            apply_user_filter(&mut node, user);
            let at: usize = place_for(&out, node.connection_id.as_str());
            proof {
                assert(!picked.contains(key));
                assert(shown_nodes(out@).len() == picked.len());
                lemma_insert_key(picked, at as int, key);
                lemma_order_insert(shown_nodes(out@), at as int, node@);
                picked = picked.insert(at as int, key);
                assert(shown_nodes(out@.insert(at as int, node)) =~= shown_nodes(out@).insert(
                    at as int,
                    node@,
                ));
                assert(shown_nodes(out@).insert(at as int, node@) =~= nodes_for(
                    picked,
                    views,
                    opt_str(user),
                    names@,
                    now_ms,
                ));
            }
            out.insert(at, node);
        }
        assert forall|k: Seq<char>|
            picked.contains(k) <==> #[trigger] keys.take(i + 1).contains(k) && row_matches(
                views[k],
                filter@,
            ) by {
            assert(old_picked.contains(k) <==> keys.take(i as int).contains(k) && row_matches(
                views[k],
                filter@,
            ));
        }
        i = i + 1;
    }
    proof {
        assert(keys.take(i as int) =~= keys);
        assert(selects(picked, views, filter@)) by {
            assert forall|k: Seq<char>|
                picked.contains(k) <==> #[trigger] views.contains_key(k) && row_matches(
                    views[k],
                    filter@,
                ) by {
                assert(keys.take(i as int).contains(k) == keys.contains(k));
                assert(rows@.contains_key(k) == views.contains_key(k));
            }
        }
    }
    out
}

/// The answer to a frontend: the nodes that match the filter, with the
/// processes of the user alone, in the order of their connection ids.
pub fn build_query_response(
    rows: &CacheMap,
    filter: &NodeFilter,
    user: Option<&str>,
    names: &HashMap<u32, String>,
    now_ms: i64,
) -> (r: QueryResponse)
    requires
        rows.wf(),
        filter.wf(),
    ensures
        answers(row_views(rows@), filter@, opt_str(user), names@, now_ms, shown_nodes(r.nodes@)),
        r.meta.status@ == (if r.nodes@.len() == 0 {
            "empty"@
        } else {
            "ok"@
        }),
        r.meta.timestamp_ms == now_ms,
        r.meta.node_count == r.nodes@.len(),
        r.meta.errors@.len() == 0,
{
    let nodes = collect_nodes(rows, filter, user, names, now_ms);
    let status = if nodes.len() == 0 {
        "empty".to_owned()
    } else {
        "ok".to_owned()
    };
    QueryResponse {
        meta: QueryMeta {
            status,
            timestamp_ms: now_ms,
            node_count: nodes.len(),
            errors: Vec::new(),
        },
        nodes,
    }
}

/// The request in the text behind `QUERY`. `parse` reads it as JSON; no text
/// asks for everything.
pub fn parse_query_request<P: Fn(&str) -> Result<QueryRequest, String>>(s: &str, parse: &P) -> (r:
    Result<QueryRequest, String>)
    requires
        call_requires(*parse, (s,)),
    ensures
        s@.len() == 0 ==> r == Ok::<QueryRequest, String>(
            QueryRequest { filter: None, user: None },
        ),
        s@.len() > 0 ==> exists|p: Result<QueryRequest, String>| #[trigger]
            call_ensures(*parse, (s,), p) && match p {
                Ok(request) => r == Ok::<QueryRequest, String>(request),
                Err(e) => r matches Err(text) && text@ == "invalid QUERY payload: "@ + e@,
            },
{
    if s.is_empty() {
        return Ok(QueryRequest { filter: None, user: None });
    }
    match parse(s) {
        Ok(request) => Ok(request),
        Err(e) => {
            let mut out = "invalid QUERY payload: ".to_owned();
            out.append(e.as_str());
            Err(out)
        },
    }
}

/// The owners of processes.
pub open spec fn process_uids(v: Seq<ProcessModel>) -> Seq<u32> {
    v.map_values(|p: ProcessModel| p.uid)
}

/// The owners of the processes on resources, one resource after the other.
pub open spec fn gres_uids(v: Seq<GresModel>) -> Seq<u32>
    decreases v.len(),
{
    if v.len() == 0 {
        Seq::empty()
    } else {
        gres_uids(v.drop_last()) + process_uids(v.last().processes)
    }
}

/// The snapshot of which a row shows the processes.
pub open spec fn shown_snapshot(row: RowView) -> Option<SnapshotView> {
    match row.last_snapshot {
        Some(s) => Some(s),
        None => snapshot_in_answer(row.server_gres),
    }
}

/// The owners of the processes in a row.
pub open spec fn row_uids(row: RowView) -> Seq<u32> {
    match shown_snapshot(row) {
        Some(s) => gres_uids(s.gres),
        None => Seq::empty(),
    }
}

/// The owners of the processes in the rows, one row after the other.
pub open spec fn all_uids(keys: Seq<Seq<char>>, rows: Map<Seq<char>, RowView>) -> Seq<u32>
    decreases keys.len(),
{
    if keys.len() == 0 {
        Seq::empty()
    } else {
        all_uids(keys.drop_last(), rows) + row_uids(rows[keys.last()])
    }
}

/// The users that own processes in the rows, so that their names can be looked
/// up. A user may occur more than once.
pub fn uids_in(rows: &CacheMap) -> (r: Vec<u32>)
    requires
        rows.wf(),
    ensures
        r@ == all_uids(rows.spec_keys(), row_views(rows@)),
{
    let ghost views = row_views(rows@);
    let ghost keys = rows.spec_keys();
    proof {
        rows.lemma_keys();
    }
    let mut out: Vec<u32> = Vec::new();
    let n: usize = rows.len();
    let mut i: usize = 0;
    assert(keys.take(0) =~= Seq::empty());
    assert(out@ =~= Seq::empty());
    while i < n
        invariant
            i <= n == keys.len(),
            rows.wf(),
            views == row_views(rows@),
            keys == rows.spec_keys(),
            forall|k: Seq<char>| keys.contains(k) <==> #[trigger] rows@.contains_key(k),
            out@ == all_uids(keys.take(i as int), views),
        decreases n - i,
    {
        let entry = rows.value_at(i);
        let ghost before = out@;
        proof {
            assert(keys.contains(keys[i as int]));
            assert(views[keys[i as int]] == entry@);
            assert(keys.take(i + 1).drop_last() =~= keys.take(i as int));
            assert(keys.take(i + 1).last() == keys[i as int]);
        }
        match &entry.last_snapshot {
            Some(s) => {
                push_uids(&mut out, s);
            },
            None => match decode_answer(entry.server_gres.as_slice()) {
                Some(s) => {
                    push_uids(&mut out, &s);
                },
                None => {
                    assert(out@ =~= before + row_uids(entry@));
                },
            },
        }
        i = i + 1;
    }
    assert(keys.take(i as int) =~= keys);
    out
}

fn push_uids(out: &mut Vec<u32>, s: &ServerGpuSnapshot)
    ensures
        final(out)@ == old(out)@ + gres_uids(s@.gres),
{
    let ghost start = out@;
    let ghost all = s@.gres;
    let mut i: usize = 0;
    assert(all.take(0) =~= Seq::empty());
    assert(out@ =~= start + gres_uids(all.take(0)));
    while i < s.gres.len()
        invariant
            i <= s.gres@.len(),
            all == s@.gres,
            out@ == start + gres_uids(all.take(i as int)),
        decreases s.gres@.len() - i,
    {
        let r = &s.gres[i];
        let ghost before = out@;
        let ghost owners = process_uids(r@.processes);
        let mut j: usize = 0;
        assert(out@ =~= before + owners.take(0));
        while j < r.processes.len()
            invariant
                j <= r.processes@.len(),
                owners == process_uids(r@.processes),
                out@ == before + owners.take(j as int),
            decreases r.processes@.len() - j,
        {
            out.push(r.processes[j].uid);
            j = j + 1;
            assert(owners.take(j as int) =~= owners.take(j - 1).push(owners[j - 1]));
            assert(out@ =~= before + owners.take(j as int));
        }
        proof {
            assert(owners.take(j as int) =~= owners);
            assert(all[i as int] == r@);
            assert(all.take(i + 1).drop_last() =~= all.take(i as int));
            assert(all.take(i + 1).last() == r@);
            assert(out@ =~= start + gres_uids(all.take(i + 1)));
        }
        i = i + 1;
    }
    assert(all.take(i as int) =~= all);
}

// ---------------------------------------------------------------------------
// Laws

/// The user filter drops processes, never resources.
pub proof fn law_user_filter_keeps_gpus(n: NodeShown, user: Option<Seq<char>>)
    ensures
        node_for_user(n, user).gpus.len() == n.gpus.len(),
        forall|i: int|
            0 <= i < n.gpus.len() ==> {
                &&& (#[trigger] node_for_user(n, user).gpus[i]).index == n.gpus[i].index
                &&& node_for_user(n, user).gpus[i].util == n.gpus[i].util
                &&& node_for_user(n, user).gpus[i].processes is Some
                    == n.gpus[i].processes is Some
            },
{
}

proof fn lemma_processes_of(v: Seq<ProcessShown>, user: Seq<char>)
    ensures
        forall|p: ProcessShown| #[trigger]
            processes_of(v, user).contains(p) <==> v.contains(p) && p.username == user,
    decreases v.len(),
{
    if v.len() > 0 {
        let w = v.drop_last();
        lemma_processes_of(w, user);
        let r = processes_of(v, user);
        let s = processes_of(w, user);
        assert forall|p: ProcessShown| #[trigger] r.contains(p) <==> v.contains(p) && p.username
            == user by {
            if v.contains(p) && p.username == user {
                let i = v.index_of(p);
                assert(v[i] == p);
                if i < w.len() {
                    assert(w[i] == p);
                    assert(w.contains(p));
                    assert(s.contains(p));
                    let j = s.index_of(p);
                    assert(s[j] == p);
                    assert(r[j] == p);
                } else {
                    assert(r[r.len() - 1] == p);
                }
            }
            if r.contains(p) {
                let j = r.index_of(p);
                assert(r[j] == p);
                if j < s.len() {
                    assert(s[j] == p);
                    assert(s.contains(p));
                    assert(w.contains(p));
                    let i = w.index_of(p);
                    assert(w[i] == p);
                    assert(v[i] == p);
                } else {
                    assert(v[v.len() - 1] == p);
                }
            }
        }
    }
}

/// Exactly the processes of the user are left.
pub proof fn law_user_filter_keeps_their_processes(
    v: Seq<ProcessShown>,
    user: Seq<char>,
    p: ProcessShown,
)
    ensures
        processes_of(v, user).contains(p) <==> v.contains(p) && p.username == user,
{
    lemma_processes_of(v, user);
}

} // verus!
