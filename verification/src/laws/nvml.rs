//! Laws of NVML readings.

use vstd::prelude::*;
use crate::common::snapshot::{opt_text, ProcessView, ServerGresSnapshot};
use crate::laws::text::{law_lines, law_lowered, law_words};
use crate::server::nvml::{
    gres_entry, line_with, means_yes, nvml_process_views, nvml_snapshot, pid_before,
    process_entries, status_uid, NvmlDevice, NvmlDeviceView, NvmlProcessView,
};
use crate::text::{begins, is_space, lines, lowered, unsigned_value, without_return, words};

verus! {

/// Whether a number of MiB is what a number of bytes comes to, less than one MiB
/// left over.
pub open spec fn is_mib_of(mb: u64, bytes: u64) -> bool {
    mb * 1048576 <= bytes < (mb + 1) * 1048576
}

proof fn lemma_mib(bytes: u64)
    ensures
        is_mib_of((bytes / 1024 / 1024) as u64, bytes),
{
    let k = bytes / 1024;
    let m = k / 1024;
    assert(m * 1024 <= k < (m + 1) * 1024);
    assert(k * 1024 <= bytes < (k + 1) * 1024);
}

/// The snapshot has one entry for each device, in the order of the devices, which
/// number them. A utilization of at most 100 is carried as it was reported, and
/// what is above 100 as 100.
pub proof fn law_utilization_is_as_reported(
    hostname: Seq<char>,
    driver: Option<Seq<char>>,
    devices: Seq<NvmlDeviceView>,
    i: int,
)
    requires
        0 <= i < devices.len() <= 255,
    ensures
        ({
            let snapshot = nvml_snapshot(hostname, driver, devices);
            let gpu = snapshot.gres[i].utilization.gres_percent as int;
            let memory = snapshot.gres[i].utilization.memory_percent as int;
            &&& snapshot.gres.len() == devices.len()
            &&& devices[i].gpu_percent <= 100 ==> gpu == devices[i].gpu_percent
            &&& devices[i].gpu_percent > 100 ==> gpu == 100
            &&& devices[i].memory_percent <= 100 ==> memory == devices[i].memory_percent
            &&& devices[i].memory_percent > 100 ==> memory == 100
        }),
{
}

/// The snapshot says of each device what was reported of it: the same name,
/// temperature and identifier, and its memory in whole MiB.
pub proof fn law_devices_are_as_reported(
    hostname: Seq<char>,
    driver: Option<Seq<char>>,
    devices: Seq<NvmlDeviceView>,
    i: int,
)
    requires
        0 <= i < devices.len() <= 255,
    ensures
        ({
            let snapshot = nvml_snapshot(hostname, driver, devices);
            let g = snapshot.gres[i];
            &&& snapshot.hostname == hostname
            &&& snapshot.driver_version == driver
            &&& g.index as int == i
            &&& g.temperature_c == devices[i].temperature_c
            &&& g.uuid == devices[i].uuid
            &&& (devices[i].name matches Some(name) ==> g.name == name)
            &&& devices[i].name is None ==> g.name == seq!['u', 'n', 'k', 'n', 'o', 'w', 'n']
            &&& is_mib_of(g.memory.used_mb, devices[i].memory_used_bytes)
            &&& is_mib_of(g.memory.total_mb, devices[i].memory_total_bytes)
        }),
{
    reveal_strlit("unknown");
    assert("unknown"@ =~= seq!['u', 'n', 'k', 'n', 'o', 'w', 'n']);
    lemma_mib(devices[i].memory_used_bytes);
    lemma_mib(devices[i].memory_total_bytes);
}

/// Whether an entry says of a process what was reported of it. The owner of a
/// process whose owner is unknown is written as the largest number, and memory
/// that is unknown as none.
pub open spec fn says_of(e: ProcessView, p: NvmlProcessView) -> bool {
    &&& e.pid == p.pid
    &&& e.command == p.command
    &&& p.uid matches Some(uid) ==> e.uid == uid
    &&& p.uid is None ==> e.uid == 4294967295
    &&& p.used_bytes matches Some(bytes) ==> is_mib_of(e.used_memory_mb, bytes)
    &&& p.used_bytes is None ==> e.used_memory_mb == 0
}

/// What the entries of the first `n` processes say, one after the other: where
/// each comes from.
spec fn origins(v: Seq<NvmlProcessView>, n: int) -> Seq<int>
    decreases n,
{
    if n <= 0 {
        Seq::empty()
    } else if pid_before(v, n - 1) {
        origins(v, n - 1)
    } else {
        origins(v, n - 1).push(n - 1)
    }
}

proof fn lemma_origins(v: Seq<NvmlProcessView>, n: int)
    requires
        0 <= n <= v.len(),
    ensures
        ({
            let from = origins(v, n);
            let out = process_entries(v, n);
            &&& from.len() == out.len()
            &&& forall|k: int| #![trigger from[k]] #![trigger out[k]]
                0 <= k < from.len() ==> 0 <= from[k] < n && says_of(out[k], v[from[k]])
                    && !pid_before(v, from[k])
            &&& forall|j: int, k: int| #![trigger from[j], from[k]]
                0 <= j < k < from.len() ==> from[j] < from[k]
            &&& forall|i: int|
                0 <= i < n && !#[trigger] pid_before(v, i) ==> from.contains(i)
        }),
    decreases n,
{
    if n > 0 {
        lemma_origins(v, n - 1);
        let before = origins(v, n - 1);
        let from = origins(v, n);
        let out = process_entries(v, n);
        if !pid_before(v, n - 1) {
            match v[n - 1].used_bytes {
                Some(b) => {
                    lemma_mib(b);
                },
                None => {},
            }
            assert(says_of(out[out.len() - 1], v[n - 1]));
        }
        assert forall|i: int| 0 <= i < n && !#[trigger] pid_before(v, i) implies from.contains(
            i,
        ) by {
            if i < n - 1 {
                assert(before.contains(i));
                let k = before.index_of(i);
                assert(from[k] == i);
            } else {
                assert(from[from.len() - 1] == i);
            }
        }
    }
}

/// Where the entries of a device's processes come from: in the order of the
/// reports, each from the first report of its process.
pub open spec fn taken_from(
    v: Seq<NvmlProcessView>,
    out: Seq<ProcessView>,
    from: Seq<int>,
) -> bool {
    &&& from.len() == out.len()
    &&& forall|k: int| #![trigger from[k]] #![trigger out[k]]
        0 <= k < from.len() ==> 0 <= from[k] < v.len() && says_of(out[k], v[from[k]])
    &&& forall|j: int, k: int| #![trigger from[j], from[k]]
        0 <= j < k < from.len() ==> from[j] < from[k]
    &&& forall|k: int, i: int|
        #![trigger from[k], v[i]]
        0 <= k < from.len() && 0 <= i < from[k] ==> v[i].pid != v[from[k]].pid
}

proof fn lemma_first_of(v: Seq<NvmlProcessView>, i: int) -> (f: int)
    requires
        0 <= i < v.len(),
    ensures
        0 <= f <= i,
        v[f].pid == v[i].pid,
        !pid_before(v, f),
    decreases i,
{
    if pid_before(v, i) {
        let j = choose|j: int| 0 <= j < i && (#[trigger] v[j]).pid == v[i].pid;
        lemma_first_of(v, j)
    } else {
        i
    }
}

/// The snapshot lists the processes of a device in the order in which they were
/// reported, each once and as it was reported first, and leaves none out.
pub proof fn law_processes_are_as_reported(d: NvmlDeviceView, index: u8)
    ensures
        ({
            let out = gres_entry(d, index).processes;
            &&& exists|from: Seq<int>| taken_from(d.processes, out, from)
            &&& forall|j: int, k: int|
                0 <= j < k < out.len() ==> (#[trigger] out[j]).pid != (#[trigger] out[k]).pid
            &&& forall|i: int|
                0 <= i < d.processes.len() ==> exists|k: int|
                    0 <= k < out.len() && (#[trigger] out[k]).pid == (
                    #[trigger] d.processes[i]).pid
        }),
{
    let v = d.processes;
    let n = v.len() as int;
    let out = gres_entry(d, index).processes;
    let from = origins(v, n);
    lemma_origins(v, n);
    assert forall|k: int, i: int|
        #![trigger from[k], v[i]]
        0 <= k < from.len() && 0 <= i < from[k] implies v[i].pid != v[from[k]].pid by {
        assert(!pid_before(v, from[k]));
    }
    assert(taken_from(v, out, from));
    assert forall|j: int, k: int| 0 <= j < k < out.len() implies (#[trigger] out[j]).pid != (
    #[trigger] out[k]).pid by {
        assert(from[j] < from[k]);
        assert(says_of(out[j], v[from[j]]));
        assert(says_of(out[k], v[from[k]]));
    }
    assert forall|i: int| 0 <= i < v.len() implies exists|k: int|
        0 <= k < out.len() && (#[trigger] out[k]).pid == (#[trigger] v[i]).pid by {
        let f = lemma_first_of(v, i);
        assert(from.contains(f));
        let k = from.index_of(f);
        assert(says_of(out[k], v[from[k]]));
        assert(out[k].pid == v[i].pid);
    }
}

/// The same of the structures themselves: a snapshot that shows what the devices
/// report holds the reported figures.
pub proof fn law_reading_is_carried(
    hostname: String,
    driver: Option<String>,
    devices: Seq<NvmlDevice>,
    r: ServerGresSnapshot,
    i: int,
)
    requires
        0 <= i < devices.len() <= 255,
        r@ == nvml_snapshot(
            hostname@,
            opt_text(driver),
            devices.map_values(|d: NvmlDevice| d@),
        ),
    ensures
        r.hostname@ == hostname@,
        opt_text(r.driver_version) == opt_text(driver),
        r.gres@.len() == devices.len(),
        r.gres@[i].index as int == i,
        r.gres@[i].temperature_c == devices[i].temperature_c,
        opt_text(r.gres@[i].uuid) == opt_text(devices[i].uuid),
        devices[i].name matches Some(name) ==> r.gres@[i].name@ == name@,
        r.gres@[i].utilization.gres_percent as int == if devices[i].gpu_percent > 100 {
            100
        } else {
            devices[i].gpu_percent as int
        },
        r.gres@[i].utilization.memory_percent as int == if devices[i].memory_percent > 100 {
            100
        } else {
            devices[i].memory_percent as int
        },
        is_mib_of(r.gres@[i].memory.used_mb, devices[i].memory_used_bytes),
        is_mib_of(r.gres@[i].memory.total_mb, devices[i].memory_total_bytes),
        r.gres@[i].processes@.len() <= devices[i].processes@.len(),
        devices[i].processes@.len() > 0 ==> r.gres@[i].processes@.len() > 0
            && r.gres@[i].processes@[0].pid == devices[i].processes@[0].pid && opt_text(
            r.gres@[i].processes@[0].command,
        ) == opt_text(devices[i].processes@[0].command),
{
    let views = devices.map_values(|d: NvmlDevice| d@);
    assert(views[i] == devices[i]@);
    law_devices_are_as_reported(hostname@, opt_text(driver), views, i);
    law_utilization_is_as_reported(hostname@, opt_text(driver), views, i);
    assert(r@.gres.len() == r.gres@.len());
    assert(r@.gres[i] == r.gres@[i]@);
    assert(r.gres@[i]@.name == r.gres@[i].name@);
    let v = nvml_process_views(devices[i].processes@);
    let n = v.len() as int;
    lemma_origins(v, n);
    lemma_few(v, n);
    let from = origins(v, n);
    if n > 0 {
        assert(!pid_before(v, 0));
        assert(from.contains(0));
        let k = from.index_of(0);
        assert(k == 0) by {
            if k > 0 {
                assert(from[0] < from[k]);
            }
        }
        let out = process_entries(v, n);
        assert(says_of(out[0], v[0]));
        assert(out[0] == r.gres@[i].processes@[0]@);
        assert(v[0] == devices[i].processes@[0]@);
    }
}

proof fn lemma_few(v: Seq<NvmlProcessView>, n: int)
    requires
        0 <= n,
    ensures
        process_entries(v, n).len() <= n,
    decreases n,
{
    if n > 0 {
        lemma_few(v, n - 1);
    }
}

/// The entries for the processes and one more: one more entry for a process that
/// did not occur yet, and no change for one that did.
pub proof fn law_one_more_process(v: Seq<NvmlProcessView>, p: NvmlProcessView)
    ensures
        ({
            let known = exists|i: int| 0 <= i < v.len() && (#[trigger] v[i]).pid == p.pid;
            let before = process_entries(v, v.len() as int);
            let after = process_entries(v.push(p), v.len() as int + 1);
            &&& known ==> after == before
            &&& !known ==> after.len() == before.len() + 1 && after.take(before.len() as int)
                == before && says_of(after.last(), p)
        }),
{
    let n = v.len() as int;
    let w = v.push(p);
    assert(v.take(n) =~= w.take(n));
    lemma_same_start(v, w, n);
    let before = process_entries(v, n);
    let after = process_entries(w, n + 1);
    let known = exists|i: int| 0 <= i < v.len() && (#[trigger] v[i]).pid == p.pid;
    if known {
        let i = choose|i: int| 0 <= i < v.len() && (#[trigger] v[i]).pid == p.pid;
        assert(w[i].pid == w[n].pid);
        assert(pid_before(w, n));
    } else {
        if pid_before(w, n) {
            let j = choose|j: int| 0 <= j < n && (#[trigger] w[j]).pid == w[n].pid;
            assert(v[j].pid == p.pid);
        }
        assert(after.take(before.len() as int) =~= before);
        match p.used_bytes {
            Some(b) => {
                lemma_mib(b);
            },
            None => {},
        }
    }
}

proof fn lemma_same_start(v: Seq<NvmlProcessView>, w: Seq<NvmlProcessView>, n: int)
    requires
        0 <= n <= v.len(),
        n <= w.len(),
        v.take(n) == w.take(n),
    ensures
        process_entries(v, n) == process_entries(w, n),
    decreases n,
{
    if n > 0 {
        assert(v.take(n - 1) =~= v.take(n).take(n - 1));
        assert(w.take(n - 1) =~= w.take(n).take(n - 1));
        lemma_same_start(v, w, n - 1);
        assert forall|j: int| 0 <= j < n implies #[trigger] v[j] == w[j] by {
            assert(v.take(n)[j] == v[j]);
            assert(w.take(n)[j] == w[j]);
        }
        assert(v[n - 1] == w[n - 1]);
        if pid_before(v, n - 1) {
            let j = choose|j: int| 0 <= j < n - 1 && (#[trigger] v[j]).pid == v[n - 1].pid;
            assert(w[j].pid == w[n - 1].pid);
        }
        if pid_before(w, n - 1) {
            let j = choose|j: int| 0 <= j < n - 1 && (#[trigger] w[j]).pid == w[n - 1].pid;
            assert(v[j].pid == v[n - 1].pid);
        }
    }
}

/// The owner of a process is the first number behind `Uid:` in the first line of
/// its status that begins so; the lines before it are passed over.
pub proof fn law_owner_in_status(
    before: Seq<char>,
    space: char,
    first: Seq<char>,
    next: char,
    others: Seq<char>,
    rest: Seq<char>,
)
    requires
        !before.contains('\n'),
        !begins(without_return(before), "Uid:"@),
        is_space(space) && space != '\n',
        is_space(next) && next != '\n',
        first.len() > 0,
        forall|k: int| 0 <= k < first.len() ==> !is_space(#[trigger] first[k]),
        !others.contains('\n'),
        others.len() > 0 && others.last() != '\r',
    ensures
        ({
            let line = "Uid:"@ + (seq![space] + (first + (seq![next] + others)));
            &&& status_uid(line + seq!['\n'] + rest) == unsigned_value(first, u32::MAX as nat)
            &&& status_uid(before + seq!['\n'] + (line + seq!['\n'] + rest)) == status_uid(
                line + seq!['\n'] + rest,
            )
        }),
{
    reveal_strlit("Uid:");
    let mark = "Uid:"@;
    let tail = first + (seq![next] + others);
    let line = mark + (seq![space] + tail);
    assert forall|k: int| 0 <= k < line.len() implies #[trigger] line[k] != '\n' by {
        if k == 4 {
        } else if k > 4 && k < 5 + first.len() {
            assert(line[k] == first[k - 5]);
        } else if k == 5 + first.len() {
        } else if k > 5 + first.len() {
            assert(line[k] == others[k - 6 - first.len()]);
            assert(others.contains(others[k - 6 - first.len()]));
        }
    }
    assert(line.last() == others.last());
    let text = line + seq!['\n'] + rest;
    law_lines(line, rest);
    law_lines(before, text);
    assert(lines(text)[0] == line);
    assert(line.subrange(0, 4) =~= mark);
    assert(begins(line, mark));
    law_words(mark, space, tail);
    law_words(first, next, others);
    assert(words(line) == seq![mark] + (seq![first] + words(others)));
    assert(words(line)[1] == first);
    let all = lines(before + seq!['\n'] + text);
    assert(all[0] == without_return(before));
    assert(all.drop_first() =~= lines(text));
}

/// A status without such a line has no owner.
pub proof fn law_status_without_owner(text: Seq<char>)
    ensures
        (forall|i: int| 0 <= i < lines(text).len() ==> !begins(#[trigger] lines(text)[i], "Uid:"@))
            ==> status_uid(text) is None,
{
    if forall|i: int|
        0 <= i < lines(text).len() ==> !begins(#[trigger] lines(text)[i], "Uid:"@) {
        lemma_no_line(lines(text), "Uid:"@);
    }
}

proof fn lemma_no_line(list: Seq<Seq<char>>, mark: Seq<char>)
    requires
        forall|i: int| 0 <= i < list.len() ==> !begins(#[trigger] list[i], mark),
    ensures
        line_with(list, mark) is None,
    decreases list.len(),
{
    if list.len() > 0 {
        assert(!begins(list[0], mark));
        let rest = list.drop_first();
        assert forall|i: int| 0 <= i < rest.len() implies !begins(#[trigger] rest[i], mark) by {
            assert(rest[i] == list[i + 1]);
        }
        lemma_no_line(rest, mark);
    }
}

/// What means yes: `1`, and `true` and `yes` in capital or small letters.
pub proof fn law_means_yes(v: Seq<char>)
    ensures
        !means_yes(None),
        means_yes(Some(v)) ==> v.len() == 1 || v.len() == 3 || v.len() == 4,
        v.len() == 1 ==> (means_yes(Some(v)) <==> v[0] == '1'),
        v.len() == 3 ==> (means_yes(Some(v)) <==> (v[0] == 'y' || v[0] == 'Y') && (v[1] == 'e'
            || v[1] == 'E') && (v[2] == 's' || v[2] == 'S')),
        v.len() == 4 ==> (means_yes(Some(v)) <==> (v[0] == 't' || v[0] == 'T') && (v[1] == 'r'
            || v[1] == 'R') && (v[2] == 'u' || v[2] == 'U') && (v[3] == 'e' || v[3] == 'E')),
{
    reveal_strlit("1");
    reveal_strlit("true");
    reveal_strlit("yes");
    let t = lowered("true"@);
    let y = lowered("yes"@);
    assert(t =~= seq!['t', 'r', 'u', 'e']);
    assert(y =~= seq!['y', 'e', 's']);
    let l = lowered(v);
    assert(l.len() == v.len());
    assert forall|i: int| 0 <= i < v.len() implies (#[trigger] l[i] == 'y' <==> v[i] == 'y' || v[i]
        == 'Y') && (l[i] == 'e' <==> v[i] == 'e' || v[i] == 'E') && (l[i] == 's' <==> v[i] == 's'
        || v[i] == 'S') && (l[i] == 't' <==> v[i] == 't' || v[i] == 'T') && (l[i] == 'r' <==> v[i]
        == 'r' || v[i] == 'R') && (l[i] == 'u' <==> v[i] == 'u' || v[i] == 'U') by {
        law_lowered(v, i);
    }
    if v.len() == 1 {
        assert(v[0] == '1' ==> v =~= "1"@);
    }
    if v.len() == 3 {
        assert(l =~= seq![l[0], l[1], l[2]]);
        assert(v == "1"@ ==> v.len() == 1);
        if l == y {
            assert(l[0] == 'y' && l[1] == 'e' && l[2] == 's');
        }
        if l[0] == 'y' && l[1] == 'e' && l[2] == 's' {
            assert(l =~= y);
        }
    }
    if v.len() == 4 {
        if l == t {
            assert(l[0] == 't' && l[1] == 'r' && l[2] == 'u' && l[3] == 'e');
        }
        if l[0] == 't' && l[1] == 'r' && l[2] == 'u' && l[3] == 'e' {
            assert(l =~= t);
        }
    }
}

} // verus!
