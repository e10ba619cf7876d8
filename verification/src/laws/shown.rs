//! Laws of how nodes are shown.

use vstd::prelude::*;
use vstd::utf8::{decode_utf8, encode_utf8, valid_utf8};
use crate::client::adapter::{
    all_uids, answers, csv_gpus, gpu_shown, gpus_shown, gres_uids, in_id_order, legacy_gpus,
    node_for_user, node_shown, nodes_for, numbers_as_bytes, payload_in_json, process_shown,
    processes_of, row_shown, row_uids, selects, shown_gpus, shown_processes, snapshot_in_answer,
    summary_gpus, user_name, GpuShown, GpuView, NodeShown, ProcessShown,
};
use crate::client::base64::base64_bytes;
use crate::client::cache::{row_matches, RowView};
use crate::client::filter::{filter_matches, FilterView};
use crate::client::json::{json_number, json_numbers, json_text};
use crate::common::net::{addr_text, AddrView};
use crate::common::payload::snapshot_in;
use crate::common::snapshot::{opt_text, GresView, ProcessView, ServerGresSnapshot, SnapshotView};
use crate::laws::filter::lemma_split_glued;
use crate::laws::text::glued;
use crate::text::{decimal, split_on, text_before, text_in, unsigned_value};

verus! {

// ---------------------------------------------------------------------------
// Users

/// An owner that is unknown is a question mark, an owner with a name is shown by
/// it, and any other by number.
pub proof fn law_user_name(uid: u32, names: Map<u32, String>)
    ensures
        user_name(u32::MAX, names) == seq!['?'],
        uid < 4294967295 && names.contains_key(uid) ==> user_name(uid, names) == names[uid]@,
        uid < 4294967295 && !names.contains_key(uid) ==> user_name(uid, names) == decimal(
            uid as nat,
        ),
{
    reveal_strlit("?");
    assert("?"@ =~= seq!['?']);
}

// ---------------------------------------------------------------------------
// Resources and processes

/// A number that has to fit in 32 bits: as it is where it fits, and otherwise the
/// largest that does.
pub open spec fn fits_or_largest(shown: u32, n: u64) -> bool {
    (n <= 4294967295 ==> shown == n) && (n > 4294967295 ==> shown == 4294967295)
}

/// Whether a process is shown as it was reported.
pub open spec fn shows_process(
    shown: ProcessShown,
    p: ProcessView,
    names: Map<u32, String>,
) -> bool {
    &&& shown.pid == p.pid
    &&& shown.uid == p.uid
    &&& shown.command == p.command
    &&& shown.username == user_name(p.uid, names)
    &&& fits_or_largest(shown.used_memory_mb, p.used_memory_mb)
}

/// Whether a resource is shown as it was reported, with all its processes.
pub open spec fn shows_gpu(shown: GpuShown, g: GresView, names: Map<u32, String>) -> bool {
    &&& shown.index == g.index
    &&& shown.name == g.name
    &&& shown.temperature_c == g.temperature_c
    &&& g.utilization.gres_percent <= 100 ==> shown.util == g.utilization.gres_percent
    &&& g.utilization.gres_percent > 100 ==> shown.util == 100
    &&& fits_or_largest(shown.mem_used_mb, g.memory.used_mb)
    &&& fits_or_largest(shown.mem_total_mb, g.memory.total_mb)
    &&& shown.processes is Some
    &&& shown.processes->0.len() == g.processes.len()
    &&& forall|i: int|
        0 <= i < g.processes.len() ==> shows_process(
            #[trigger] shown.processes->0[i],
            g.processes[i],
            names,
        )
}

/// Each resource of a snapshot is shown at its place, and agrees with the snapshot
/// field by field: index, name, temperature, utilization and memory, and as many
/// processes with the same pid, owner and command.
pub proof fn law_gpus_are_shown_as_reported(s: SnapshotView, names: Map<u32, String>)
    ensures
        gpus_shown(s, names).len() == s.gres.len(),
        forall|i: int|
            0 <= i < s.gres.len() ==> shows_gpu(
                #[trigger] gpus_shown(s, names)[i],
                s.gres[i],
                names,
            ),
{
    let shown = gpus_shown(s, names);
    assert forall|i: int| 0 <= i < s.gres.len() implies shows_gpu(
        #[trigger] shown[i],
        s.gres[i],
        names,
    ) by {
        let g = s.gres[i];
        assert(shown[i] == gpu_shown(g, names));
        assert forall|k: int| 0 <= k < g.processes.len() implies shows_process(
            #[trigger] shown[i].processes->0[k],
            g.processes[k],
            names,
        ) by {
            assert(shown[i].processes->0[k] == process_shown(g.processes[k], names));
        }
    }
}

/// The same of the structures themselves.
pub proof fn law_shown_gpus_hold_what_was_reported(
    snapshot: ServerGresSnapshot,
    names: Map<u32, String>,
    shown: Seq<GpuView>,
    i: int,
)
    requires
        shown_gpus(shown) == gpus_shown(snapshot@, names),
        0 <= i < snapshot.gres@.len(),
    ensures
        shown.len() == snapshot.gres@.len(),
        shown[i].index == snapshot.gres@[i].index,
        shown[i].name@ == snapshot.gres@[i].name@,
        shown[i].temperature_c == snapshot.gres@[i].temperature_c,
        snapshot.gres@[i].utilization.gres_percent <= 100 ==> shown[i].util
            == snapshot.gres@[i].utilization.gres_percent,
        fits_or_largest(shown[i].mem_used_mb, snapshot.gres@[i].memory.used_mb),
        fits_or_largest(shown[i].mem_total_mb, snapshot.gres@[i].memory.total_mb),
        shown[i].processes is Some,
        shown[i].processes->0@.len() == snapshot.gres@[i].processes@.len(),
        forall|k: int|
            0 <= k < shown[i].processes->0@.len() ==> {
                let p = #[trigger] shown[i].processes->0@[k];
                let q = snapshot.gres@[i].processes@[k];
                &&& p.pid == q.pid
                &&& p.uid == q.uid
                &&& opt_text(p.command) == opt_text(q.command)
                &&& p.username@ == user_name(q.uid, names)
                &&& fits_or_largest(p.used_memory_mb, q.used_memory_mb)
            },
{
    law_gpus_are_shown_as_reported(snapshot@, names);
    let views = shown_gpus(shown);
    assert(views.len() == shown.len());
    assert(snapshot@.gres.len() == snapshot.gres@.len());
    assert(snapshot@.gres[i] == snapshot.gres@[i]@);
    assert(views[i] == shown[i]@);
    assert(shows_gpu(views[i], snapshot@.gres[i], names));
    assert(shown[i]@.name == shown[i].name@);
    let list = shown[i].processes->0@;
    let from = snapshot.gres@[i].processes@;
    assert(views[i].processes->0 == shown_processes(list));
    assert forall|k: int| 0 <= k < list.len() implies {
        let p = #[trigger] list[k];
        let q = from[k];
        &&& p.pid == q.pid
        &&& p.uid == q.uid
        &&& opt_text(p.command) == opt_text(q.command)
        &&& p.username@ == user_name(q.uid, names)
        &&& fits_or_largest(p.used_memory_mb, q.used_memory_mb)
    } by {
        assert(views[i].processes->0[k] == list[k]@);
        assert(snapshot@.gres[i].processes[k] == from[k]@);
    }
}

// ---------------------------------------------------------------------------
// Nodes

/// Whether a node is shown with what a snapshot says of it.
pub open spec fn shows_snapshot(n: NodeShown, s: SnapshotView, names: Map<u32, String>) -> bool {
    &&& n.hostname == s.hostname
    &&& n.driver_version == s.driver_version
    &&& n.gpus.len() == s.gres.len()
    &&& s.gres.len() <= 255 ==> n.num as nat == s.gres.len()
    &&& s.gres.len() > 255 ==> n.num == 255
    &&& forall|i: int|
        0 <= i < s.gres.len() ==> shows_gpu(#[trigger] n.gpus[i], s.gres[i], names)
}

/// A node that answered is shown under its id and address, with the name, the
/// driver and every resource of its snapshot, the time and the delay of the
/// answer, and as neither stale nor at fault.
pub proof fn law_node_is_shown_as_reported(
    id: Seq<char>,
    addr: AddrView,
    time: i64,
    s: SnapshotView,
    delay: Option<u64>,
    names: Map<u32, String>,
)
    ensures
        ({
            let n = node_shown(id, addr, time, s, delay, names);
            &&& n.connection_id == id
            &&& n.addr == addr_text(addr)
            &&& n.timestamp_ms == time
            &&& n.delay_us == delay
            &&& !n.stale
            &&& n.error is None
            &&& shows_snapshot(n, s, names)
        }),
{
    law_gpus_are_shown_as_reported(s, names);
}

/// A row with a snapshot is shown as that snapshot, up to date; one without is
/// shown as stale, with its own name, its error and the resources in the last
/// answer that can be read. Either is shown under its id, its address and its
/// delay.
pub proof fn law_row_is_shown(row: RowView, names: Map<u32, String>, now_ms: i64)
    ensures
        ({
            let n = row_shown(row, names, now_ms);
            &&& n.connection_id == row.connection_id
            &&& n.addr == addr_text(row.addr)
            &&& n.delay_us == row.last_query_latency_us
            &&& n.stale <==> row.last_snapshot is None
            &&& row.last_snapshot matches Some(s) ==> shows_snapshot(n, s, names) && n.timestamp_ms
                == row.record_timestamp && n.error is None
            &&& row.last_snapshot is None ==> {
                &&& n.hostname == row.hostname
                &&& n.num == row.num
                &&& n.error == row.last_error
                &&& n.driver_version is None
                &&& snapshot_in_answer(row.server_gres) matches Some(s) ==> {
                    &&& n.timestamp_ms == now_ms
                    &&& n.gpus.len() == s.gres.len()
                    &&& forall|i: int|
                        0 <= i < s.gres.len() ==> shows_gpu(
                            #[trigger] n.gpus[i],
                            s.gres[i],
                            names,
                        )
                }
                &&& snapshot_in_answer(row.server_gres) is None ==> n.timestamp_ms
                    == row.record_timestamp && n.gpus == legacy_gpus(row.server_gres)
            }
        }),
{
    match row.last_snapshot {
        Some(s) => {
            law_node_is_shown_as_reported(
                row.connection_id,
                row.addr,
                row.record_timestamp,
                s,
                row.last_query_latency_us,
                names,
            );
        },
        None => match snapshot_in_answer(row.server_gres) {
            Some(s) => {
                law_gpus_are_shown_as_reported(s, names);
            },
            None => {},
        },
    }
}

// ---------------------------------------------------------------------------
// Older answers

/// Bytes written as numbers are read back; one number that is no byte, or
/// something that is no number, makes the whole unreadable.
pub proof fn law_bytes_as_numbers(bytes: Seq<u8>, items: Seq<Option<u64>>, i: int)
    ensures
        numbers_as_bytes(bytes.map_values(|b: u8| Some(b as u64))) == Some(bytes),
        0 <= i < items.len() && (items[i] is None || items[i]->0 > 255) ==> numbers_as_bytes(
            items,
        ) is None,
{
    let list = bytes.map_values(|b: u8| Some(b as u64));
    assert forall|k: int| 0 <= k < list.len() implies crate::client::adapter::is_byte(
        #[trigger] list[k],
    ) by {
        assert(list[k] == Some(bytes[k] as u64));
    }
    assert(numbers_as_bytes(list)->0 =~= bytes);
    if 0 <= i < items.len() && (items[i] is None || items[i]->0 > 255) {
        assert(!crate::client::adapter::is_byte(items[i]));
    }
}

/// Whether a resource is one of which only four figures are known.
pub open spec fn shows_figures(g: GpuShown, index: nat, util: nat, used: nat, total: nat) -> bool {
    &&& g.index as nat == index
    &&& g.util as nat == util
    &&& g.mem_used_mb as nat == used
    &&& g.mem_total_mb as nat == total
    &&& g.name == seq!['G', 'P', 'U']
    &&& g.temperature_c is None
    &&& g.processes is None
}

/// Four numbers with commas between them are the index, the utilization and the
/// used and total memory of one more resource; anything else is passed over.
pub proof fn law_figures_in_a_list(
    items: Seq<Seq<char>>,
    parts: Seq<Seq<char>>,
    index: nat,
    util: nat,
    used: nat,
    total: nat,
)
    requires
        parts.len() > 0,
        forall|i: int| 0 <= i < parts.len() ==> !(#[trigger] parts[i]).contains(','),
    ensures
        ({
            let more = csv_gpus(items.push(glued(parts, ',')));
            let n = csv_gpus(items).len();
            let right = parts.len() == 4 && unsigned_value(parts[0], 255) == Some(index)
                && unsigned_value(parts[1], 255) == Some(util) && unsigned_value(
                parts[2],
                4294967295,
            ) == Some(used) && unsigned_value(parts[3], 4294967295) == Some(total);
            let wrong = parts.len() != 4 || unsigned_value(parts[0], 255) is None || unsigned_value(
                parts[1],
                255,
            ) is None || unsigned_value(parts[2], 4294967295) is None || unsigned_value(
                parts[3],
                4294967295,
            ) is None;
            &&& right ==> more.len() == n + 1 && more.take(n as int) == csv_gpus(items)
                && shows_figures(more.last(), index, util, used, total)
            &&& wrong ==> more == csv_gpus(items)
        }),
{
    reveal_strlit("GPU");
    assert("GPU"@ =~= seq!['G', 'P', 'U']);
    let item = glued(parts, ',');
    let all = items.push(item);
    lemma_split_glued(parts, ',');
    assert(all.drop_last() =~= items);
    assert(all.last() == item);
    let n = csv_gpus(items).len() as int;
    if csv_gpus(all).len() == n + 1 {
        assert(csv_gpus(all).take(n) =~= csv_gpus(items));
    }
}

/// A summary stands for as many resources as it counts, up to 255, numbered from
/// zero and each at the average utilization, up to 100.
pub proof fn law_summary(count: u64, average: u64, i: int)
    requires
        0 <= i < count,
        i < 255,
    ensures
        summary_gpus(count, average).len() == (if count > 255 {
            255
        } else {
            count as nat
        }),
        shows_figures(
            summary_gpus(count, average)[i],
            i as nat,
            if average > 100 {
                100
            } else {
                average as nat
            },
            0,
            0,
        ),
        summary_gpus(0, average).len() == 0,
{
    reveal_strlit("GPU");
    assert("GPU"@ =~= seq!['G', 'P', 'U']);
}

/// An older answer that gives a number of resources and an average is read as that
/// summary, and any other as a list with semicolons between its items.
pub proof fn law_older_answers(raw: Seq<u8>)
    ensures
        ({
            let text = text_in(raw);
            let count = json_number(text, "gpu_num"@);
            let average = json_number(text, "avg_utilization"@);
            &&& count is Some && average is Some ==> legacy_gpus(raw) == summary_gpus(
                count->0,
                average->0,
            )
            &&& count is None || average is None ==> legacy_gpus(raw) == csv_gpus(
                split_on(text, ';'),
            )
        }),
{
}

// ---------------------------------------------------------------------------
// One user

/// The processes of a user and one more process: it is kept if it is that user's.
pub proof fn law_processes_of_a_user(v: Seq<ProcessShown>, p: ProcessShown, user: Seq<char>)
    ensures
        processes_of(v.push(p), user) == if p.username == user {
            processes_of(v, user).push(p)
        } else {
            processes_of(v, user)
        },
        processes_of(Seq::empty(), user).len() == 0,
{
    assert(v.push(p).drop_last() =~= v);
}

/// Asking for a user takes the processes of others away and nothing else; without
/// a user nothing is taken away.
pub proof fn law_asking_for_a_user(n: NodeShown, user: Seq<char>, i: int)
    requires
        0 <= i < n.gpus.len(),
    ensures
        node_for_user(n, None) == n,
        node_for_user(n, Some(Seq::empty())) == n,
        ({
            let m = node_for_user(n, Some(user));
            &&& m.connection_id == n.connection_id
            &&& m.hostname == n.hostname
            &&& m.addr == n.addr
            &&& m.timestamp_ms == n.timestamp_ms
            &&& m.driver_version == n.driver_version
            &&& m.num == n.num
            &&& m.stale == n.stale
            &&& m.error == n.error
            &&& m.delay_us == n.delay_us
            &&& m.gpus.len() == n.gpus.len()
            &&& m.gpus[i].index == n.gpus[i].index
            &&& m.gpus[i].name == n.gpus[i].name
            &&& m.gpus[i].temperature_c == n.gpus[i].temperature_c
            &&& m.gpus[i].util == n.gpus[i].util
            &&& m.gpus[i].mem_used_mb == n.gpus[i].mem_used_mb
            &&& m.gpus[i].mem_total_mb == n.gpus[i].mem_total_mb
            &&& m.gpus[i].processes is Some <==> n.gpus[i].processes is Some
            &&& user.len() > 0 && n.gpus[i].processes is Some ==> m.gpus[i].processes->0
                == processes_of(n.gpus[i].processes->0, user)
        }),
{
}

// ---------------------------------------------------------------------------
// Answers

/// Whether a node is what one of the rows that the filter lets through is shown as.
pub open spec fn shows_a_row(
    node: NodeShown,
    rows: Map<Seq<char>, RowView>,
    filter: FilterView,
    user: Option<Seq<char>>,
    names: Map<u32, String>,
    now_ms: i64,
) -> bool {
    exists|k: Seq<char>| #[trigger]
        rows.contains_key(k) && filter_matches(
            filter,
            rows[k].hostname,
            rows[k].addr,
            rows[k].connection_id,
        ) && node == node_for_user(row_shown(rows[k], names, now_ms), user)
}

/// An answer shows a node for each row that the filter lets through, and only
/// for those, as many nodes as there are such rows, in the order of their ids.
pub proof fn law_answer_shows_the_matching_rows(
    rows: Map<Seq<char>, RowView>,
    filter: FilterView,
    user: Option<Seq<char>>,
    names: Map<u32, String>,
    now_ms: i64,
    nodes: Seq<NodeShown>,
)
    requires
        answers(rows, filter, user, names, now_ms, nodes),
        rows.dom().finite(),
    ensures
        forall|k: Seq<char>|
            #![trigger rows.contains_key(k)]
            rows.contains_key(k) && filter_matches(
                filter,
                rows[k].hostname,
                rows[k].addr,
                rows[k].connection_id,
            ) ==> nodes.contains(node_for_user(row_shown(rows[k], names, now_ms), user)),
        forall|i: int|
            0 <= i < nodes.len() ==> shows_a_row(
                #[trigger] nodes[i],
                rows,
                filter,
                user,
                names,
                now_ms,
            ),
        nodes.len() == rows.dom().filter(|k: Seq<char>| row_matches(rows[k], filter)).len(),
        forall|i: int, j: int|
            #![trigger nodes[i], nodes[j]]
            0 <= i < j < nodes.len() ==> !text_before(
                nodes[j].connection_id,
                nodes[i].connection_id,
            ),
{
    let keys = choose|keys: Seq<Seq<char>>| #[trigger]
        selects(keys, rows, filter) && nodes == nodes_for(keys, rows, user, names, now_ms);
    assert(in_id_order(nodes));
    assert(nodes.len() == keys.len());
    assert forall|k: Seq<char>|
        #![trigger rows.contains_key(k)]
        rows.contains_key(k) && filter_matches(
            filter,
            rows[k].hostname,
            rows[k].addr,
            rows[k].connection_id,
        ) implies nodes.contains(node_for_user(row_shown(rows[k], names, now_ms), user)) by {
        assert(row_matches(rows[k], filter));
        assert(keys.contains(k));
        let i = keys.index_of(k);
        assert(nodes[i] == node_for_user(row_shown(rows[k], names, now_ms), user));
    }
    assert forall|i: int| 0 <= i < nodes.len() implies shows_a_row(
        #[trigger] nodes[i],
        rows,
        filter,
        user,
        names,
        now_ms,
    ) by {
        let k = keys[i];
        assert(keys.contains(k));
        assert(rows.contains_key(k) && row_matches(rows[k], filter));
        assert(nodes[i] == node_for_user(row_shown(rows[k], names, now_ms), user));
    }
    let chosen = rows.dom().filter(|k: Seq<char>| row_matches(rows[k], filter));
    assert(keys.to_set() =~= chosen) by {
        assert forall|k: Seq<char>| keys.to_set().contains(k) <==> chosen.contains(k) by {
            assert(keys.to_set().contains(k) <==> keys.contains(k));
            assert(rows.dom().contains(k) <==> rows.contains_key(k));
        }
    }
    keys.unique_seq_to_set();
}

// ---------------------------------------------------------------------------
// Owners

/// The owners of all processes that are shown are looked up: each owner of a
/// process on a resource of a row occurs.
pub proof fn law_owners_are_listed(gres: Seq<GresView>, i: int, k: int)
    requires
        0 <= i < gres.len(),
        0 <= k < gres[i].processes.len(),
    ensures
        gres_uids(gres).contains(gres[i].processes[k].uid),
    decreases gres.len(),
{
    let uid = gres[i].processes[k].uid;
    let init = gres.drop_last();
    let last = crate::client::adapter::process_uids(gres.last().processes);
    if i < gres.len() - 1 {
        law_owners_are_listed(init, i, k);
        let j = gres_uids(init).index_of(uid);
        assert(gres_uids(gres)[j] == uid);
    } else {
        assert(last[k] == uid);
        assert(gres_uids(gres)[gres_uids(init).len() + k] == uid);
    }
}

/// An owner who is listed owns a process.
pub proof fn law_only_owners_are_listed(gres: Seq<GresView>, uid: u32)
    requires
        gres_uids(gres).contains(uid),
    ensures
        exists|i: int, k: int|
            0 <= i < gres.len() && 0 <= k < gres[i].processes.len() && (
            #[trigger] gres[i].processes[k]).uid == uid,
    decreases gres.len(),
{
    let init = gres.drop_last();
    if gres.len() > 0 {
        let last = crate::client::adapter::process_uids(gres.last().processes);
        let j = gres_uids(gres).index_of(uid);
        let n = gres_uids(init).len();
        if j < n {
            assert(gres_uids(init)[j] == uid);
            law_only_owners_are_listed(init, uid);
            let (i, k) = choose|i: int, k: int|
                0 <= i < init.len() && 0 <= k < init[i].processes.len() && (
                #[trigger] init[i].processes[k]).uid == uid;
            assert(gres[i].processes[k].uid == uid);
        } else {
            assert(last[j - n] == uid);
            assert(gres[gres.len() - 1].processes[j - n].uid == uid);
        }
    }
}

/// The owners on all rows are those on each of them.
pub proof fn law_owners_on_all_rows(
    keys: Seq<Seq<char>>,
    rows: Map<Seq<char>, RowView>,
    i: int,
    uid: u32,
)
    requires
        0 <= i < keys.len(),
        row_uids(rows[keys[i]]).contains(uid),
    ensures
        all_uids(keys, rows).contains(uid),
        rows[keys[i]].last_snapshot matches Some(s) ==> row_uids(rows[keys[i]]) == gres_uids(
            s.gres,
        ),
        rows[keys[i]].last_snapshot is None ==> (snapshot_in_answer(
            rows[keys[i]].server_gres,
        ) matches Some(s) && row_uids(rows[keys[i]]) == gres_uids(s.gres)),
    decreases keys.len(),
{
    let init = keys.drop_last();
    let last = row_uids(rows[keys.last()]);
    if i < keys.len() - 1 {
        law_owners_on_all_rows(init, rows, i, uid);
        let j = all_uids(init, rows).index_of(uid);
        assert(all_uids(keys, rows)[j] == uid);
    } else {
        let j = last.index_of(uid);
        assert(all_uids(keys, rows)[all_uids(init, rows).len() + j] == uid);
    }
}

/// The payload in an answer in JSON: the text `payload_b64`, which is Base64, or else the
/// numbers `payload`. An answer that is no text holds none.
pub proof fn law_payload_in_an_answer(raw: Seq<u8>, text: Seq<char>)
    ensures
        json_text(text, "payload_b64"@) matches Some(s) ==> payload_in_json(text) == base64_bytes(
            encode_utf8(s),
        ),
        json_text(text, "payload_b64"@) is None ==> (json_numbers(text, "payload"@) matches Some(v)
            ==> payload_in_json(text) == numbers_as_bytes(v)),
        json_text(text, "payload_b64"@) is None && json_numbers(text, "payload"@) is None
            ==> payload_in_json(text) is None,
        !valid_utf8(raw) ==> snapshot_in_answer(raw) is None,
        valid_utf8(raw) ==> (payload_in_json(decode_utf8(raw)) matches Some(p)
            ==> snapshot_in_answer(raw) == snapshot_in(p)),
        valid_utf8(raw) && payload_in_json(decode_utf8(raw)) is None ==> snapshot_in_answer(
            raw,
        ) is None,
{
}

} // verus!
