//! Laws of finding nodes and of the rows that are kept of them.

use vstd::prelude::*;
use crate::client::cache::{
    answered_row, failed_row, found_row, found_rows, numbered_id, row_key, row_matches,
    rows_with_nodes, RowView,
};
use crate::client::discovery::{
    addr_among, announced_node, announced_port, by_addr, has_legacy_announce, in_addr_order,
    is_legacy_announce, lists, outbound_ips, small, static_items, static_nodes, tiny, NodeModel,
    Resolved,
};
use crate::client::filter::{filter_matches, FilterView};
use crate::client::json::{json_bool, json_number, json_text};
use crate::common::message::DiscoveryAnnounce;
use crate::common::net::{addr_text, AddrView};
use crate::common::snapshot::SnapshotView;
use crate::laws::text::law_zero_padding;
use crate::text::{decimal, digits_value, lowered, text_before, trimmed, zero_padded};

verus! {

// ---------------------------------------------------------------------------
// Nodes that are configured

/// The configured addresses without white space around them and without blank ones,
/// in order.
pub proof fn law_one_more_static_item(parts: Seq<Seq<char>>, part: Seq<char>)
    ensures
        static_items(Seq::empty()).len() == 0,
        trimmed(part).len() > 0 ==> static_items(parts.push(part)) == static_items(parts).push(
            trimmed(part),
        ),
        trimmed(part).len() == 0 ==> static_items(parts.push(part)) == static_items(parts),
{
    assert(parts.push(part).drop_last() =~= parts);
}

proof fn lemma_static_start(v: Seq<Resolved>, w: Seq<Resolved>, now_ms: i64, n: int)
    requires
        n <= v.len(),
        n <= w.len(),
        forall|i: int| 0 <= i < n ==> v[i] == w[i],
    ensures
        static_nodes(v, now_ms, n) == static_nodes(w, now_ms, n),
    decreases n,
{
    if n > 0 {
        lemma_static_start(v, w, now_ms, n - 1);
    }
}

/// Each address that was looked up makes one node, in order: under its own address,
/// called by it, and found now. What could not be looked up, and what is there
/// already, makes none.
pub proof fn law_one_more_static_node(resolved: Seq<Resolved>, more: Resolved, now_ms: i64)
    ensures
        static_nodes(Seq::empty(), now_ms, 0).len() == 0,
        ({
            let n = resolved.len() as int;
            let before = static_nodes(resolved, now_ms, n);
            let after = static_nodes(resolved.push(more), now_ms, n + 1);
            &&& more is Failed ==> after == before
            &&& more matches Resolved::Address(a) ==> {
                let known = exists|i: int|
                    0 <= i < before.len() && (#[trigger] before[i]).addr == a@;
                &&& known ==> after == before
                &&& !known ==> after.len() == before.len() + 1 && after.drop_last() == before
                    && after.last().addr == a@ && after.last().hostname == a.ip@
                    && after.last().ts_ms == now_ms
            }
        }),
{
    let n = resolved.len() as int;
    lemma_static_start(resolved, resolved.push(more), now_ms, n);
    let before = static_nodes(resolved, now_ms, n);
    let after = static_nodes(resolved.push(more), now_ms, n + 1);
    if after.len() == before.len() + 1 {
        assert(after.drop_last() =~= before);
    }
}

/// No two configured nodes have the same address, and every address that was looked up
/// has a node.
pub proof fn law_static_nodes(resolved: Seq<Resolved>, now_ms: i64, n: int)
    requires
        0 <= n <= resolved.len(),
    ensures
        ({
            let nodes = static_nodes(resolved, now_ms, n);
            &&& forall|i: int, j: int|
                #![trigger nodes[i], nodes[j]]
                0 <= i < j < nodes.len() ==> nodes[i].addr != nodes[j].addr
            &&& forall|k: int|
                0 <= k < n ==> (#[trigger] resolved[k] matches Resolved::Address(a) ==> addr_among(
                    nodes,
                    a@,
                ))
        }),
    decreases n,
{
    if n > 0 {
        law_static_nodes(resolved, now_ms, n - 1);
        let before = static_nodes(resolved, now_ms, n - 1);
        let nodes = static_nodes(resolved, now_ms, n);
        assert forall|k: int| 0 <= k < n implies (#[trigger] resolved[k] matches Resolved::Address(
            a,
        ) ==> addr_among(nodes, a@)) by {
            if let Resolved::Address(a) = resolved[k] {
                if k < n - 1 {
                    let i = choose|i: int|
                        0 <= i < before.len() && (#[trigger] before[i]).addr == a@;
                    assert(nodes[i].addr == a@);
                } else if !addr_among(before, a@) {
                    assert(nodes[nodes.len() - 1].addr == a@);
                }
            }
        }
        assert forall|i: int, j: int|
            #![trigger nodes[i], nodes[j]]
            0 <= i < j < nodes.len() implies nodes[i].addr != nodes[j].addr by {
            if j == before.len() {
                assert(before[i].addr != nodes[j].addr);
            } else {
                assert(before[i].addr != before[j].addr);
            }
        }
    }
}

proof fn lemma_by_addr(nodes: Seq<NodeModel>, n: int, k: Seq<char>)
    requires
        0 <= n <= nodes.len(),
        by_addr(nodes, n).contains_key(k),
    ensures
        addr_text(by_addr(nodes, n)[k].addr) == k,
        exists|i: int| 0 <= i < n && #[trigger] nodes[i] == by_addr(nodes, n)[k],
    decreases n,
{
    if n > 0 {
        if k == addr_text(nodes[n - 1].addr) {
            assert(nodes[n - 1] == by_addr(nodes, n)[k]);
        } else {
            lemma_by_addr(nodes, n - 1, k);
            let i = choose|i: int|
                0 <= i < n - 1 && #[trigger] nodes[i] == by_addr(nodes, n - 1)[k];
            assert(nodes[i] == by_addr(nodes, n)[k]);
        }
    }
}

proof fn lemma_all_by_addr(nodes: Seq<NodeModel>, n: int, i: int)
    requires
        0 <= i < n <= nodes.len(),
    ensures
        by_addr(nodes, n).contains_key(addr_text(nodes[i].addr)),
    decreases n,
{
    if i < n - 1 {
        lemma_all_by_addr(nodes, n - 1, i);
    }
}

/// The nodes that were found, each address once and in the order of the addresses: all
/// of them were found, and every address that was found is there.
pub proof fn law_found_nodes_are_listed(found: Seq<NodeModel>, r: Seq<NodeModel>, i: int)
    requires
        lists(r, by_addr(found, found.len() as int)),
        in_addr_order(r),
    ensures
        0 <= i < r.len() ==> found.contains(r[i]),
        0 <= i < found.len() ==> exists|k: int|
            0 <= k < r.len() && addr_text((#[trigger] r[k]).addr) == addr_text(found[i].addr),
        forall|a: int, b: int|
            #![trigger r[a], r[b]]
            0 <= a < b < r.len() ==> text_before(addr_text(r[a].addr), addr_text(r[b].addr)),
{
    let n = found.len() as int;
    let m = by_addr(found, n);
    if 0 <= i < r.len() {
        lemma_by_addr(found, n, addr_text(r[i].addr));
        let j = choose|j: int| 0 <= j < n && #[trigger] found[j] == m[addr_text(r[i].addr)];
        assert(found[j] == r[i]);
    }
    if 0 <= i < found.len() {
        lemma_all_by_addr(found, n, i);
        let key = addr_text(found[i].addr);
        let k = choose|k: int| 0 <= k < r.len() && #[trigger] r[k] == m[key];
        assert(addr_text(r[k].addr) == key);
    }
}

// ---------------------------------------------------------------------------
// Announcements

/// The port of an announced node: the one for TCP where TCP is spoken, the one for UDP
/// otherwise, and the common one where that is not given.
pub proof fn law_announced_port(a: DiscoveryAnnounce, protocol: Seq<char>)
    ensures
        ({
            let p = announced_port(a, protocol);
            let tcp = lowered(trimmed(protocol)) == "tcp"@;
            &&& tcp && a.tcp_port is Some ==> p == a.tcp_port->0
            &&& !tcp && a.udp_port is Some ==> p == a.udp_port->0
            &&& tcp && a.tcp_port is None ==> p == a.port
            &&& !tcp && a.udp_port is None ==> p == a.port
        }),
{
}

/// An announced node has the name that it announces, the address that the announcement
/// came from and the announced port; another version announces nothing.
pub proof fn law_announced_node(
    a: DiscoveryAnnounce,
    src: AddrView,
    protocol: Seq<char>,
    now_ms: i64,
)
    ensures
        a.version != 1 ==> announced_node(a, src, protocol, now_ms) is None,
        a.version == 1 ==> (announced_node(a, src, protocol, now_ms) matches Some(n) && n.hostname
            == a.hostname@ && n.addr.ip == src.ip && n.addr.ipv4 == src.ipv4 && n.addr.port
            == announced_port(a, protocol) && n.addr.scope_id == 0 && n.addr.flowinfo == 0
            && n.ts_ms == now_ms),
{
}

/// Numbers that do not fit are as good as absent.
pub proof fn law_numbers_that_fit(v: u64)
    ensures
        small(None) is None,
        v <= 65535 ==> (small(Some(v)) matches Some(n) && n as u64 == v),
        v > 65535 ==> small(Some(v)) is None,
        tiny(None) is None,
        v <= 255 ==> (tiny(Some(v)) matches Some(n) && n as u64 == v),
        v > 255 ==> tiny(Some(v)) is None,
{
}

/// An announcement in the older form needs a name, an address and a port; a version that
/// is not given is the current one, and the rest may be absent.
pub proof fn law_older_announcement(msg: Seq<char>, a: DiscoveryAnnounce)
    ensures
        is_legacy_announce(msg, a) ==> has_legacy_announce(msg),
        is_legacy_announce(msg, a) ==> {
            &&& json_text(msg, "hostname"@) == Some(a.hostname@)
            &&& json_text(msg, "ip"@) == Some(a.ip@)
            &&& json_number(msg, "port"@) == Some(a.port as u64)
            &&& json_number(msg, "version"@) is None ==> a.version == 1
            &&& json_number(msg, "version"@) matches Some(v) ==> a.version as u64 == v
            &&& a.tcp_port matches Some(p) ==> json_number(msg, "tcp_port"@) == Some(p as u64)
            &&& a.udp_port matches Some(p) ==> json_number(msg, "udp_port"@) == Some(p as u64)
            &&& a.ttl matches Some(t) ==> json_number(msg, "ttl"@) == Some(t as u64)
            &&& a.load matches Some(l) ==> json_number(msg, "load"@) == Some(l as u64)
            &&& json_number(msg, "tcp_port"@) matches Some(v) ==> v <= 65535 ==> a.tcp_port is Some
            &&& json_number(msg, "udp_port"@) matches Some(v) ==> v <= 65535 ==> a.udp_port is Some
            &&& json_number(msg, "ttl"@) matches Some(v) ==> v <= 65535 ==> a.ttl is Some
            &&& json_number(msg, "load"@) matches Some(v) ==> v <= 255 ==> a.load is Some
            &&& a.degraded == json_bool(msg, "degraded"@)
            &&& a.kcp_port is None
        },
        has_legacy_announce(msg) <==> json_text(msg, "hostname"@) is Some && json_text(
            msg,
            "ip"@,
        ) is Some && (json_number(msg, "port"@) matches Some(p) && p <= 65535) && (json_number(
            msg,
            "version"@,
        ) matches Some(v) ==> v <= 255),
{
}

proof fn lemma_outbound_start(
    raw: Seq<Seq<char>>,
    faults: Seq<Option<Seq<char>>>,
    more: Seq<Seq<char>>,
    other: Seq<Option<Seq<char>>>,
    n: int,
)
    requires
        n <= raw.len() <= more.len(),
        n <= faults.len() <= other.len(),
        forall|i: int| 0 <= i < n ==> raw[i] == more[i],
        forall|i: int| 0 <= i < n ==> faults[i] == other[i],
    ensures
        outbound_ips(raw, faults, n) == outbound_ips(more, other, n),
    decreases n,
{
    if n > 0 {
        lemma_outbound_start(raw, faults, more, other, n - 1);
    }
}

/// The outbound addresses without white space around them and without blank ones, in
/// order; the first that is no address is what they are refused for.
pub proof fn law_one_more_outbound_ip(
    raw: Seq<Seq<char>>,
    faults: Seq<Option<Seq<char>>>,
    item: Seq<char>,
    fault: Option<Seq<char>>,
)
    requires
        raw.len() == faults.len(),
    ensures
        ({
            let n = raw.len() as int;
            let before = outbound_ips(raw, faults, n);
            let after = outbound_ips(raw.push(item), faults.push(fault), n + 1);
            &&& before is Err ==> after == before
            &&& before matches Ok(list) ==> {
                &&& trimmed(item).len() == 0 ==> after == before
                &&& trimmed(item).len() > 0 && fault is None ==> after == Ok::<_, Seq<char>>(
                    list.push(trimmed(item)),
                )
                &&& trimmed(item).len() > 0 && fault is Some ==> after == Err::<
                    Seq<Seq<char>>,
                    Seq<char>,
                >("invalid multicast_outbound_ip '"@ + trimmed(item) + "': "@ + fault->0)
            }
        }),
        outbound_ips(Seq::empty(), Seq::empty(), 0) == Ok::<Seq<Seq<char>>, Seq<char>>(
            Seq::empty(),
        ),
{
    lemma_outbound_start(raw, faults, raw.push(item), faults.push(fault), raw.len() as int);
}

// ---------------------------------------------------------------------------
// Rows

/// A row is kept under its IP address and port. Rows are numbered in at least three
/// digits.
pub proof fn law_names_of_rows(a: AddrView, n: nat)
    ensures
        row_key(a) == a.ip + seq!['-'] + decimal(a.port as nat),
        numbered_id(n).take(5) == seq!['c', 'o', 'n', 'n', '-'],
        digits_value(numbered_id(n).skip(5)) == n,
        numbered_id(n).len() == 5 + (if decimal(n).len() > 3 {
            decimal(n).len()
        } else {
            3
        }),
{
    reveal_strlit("-");
    reveal_strlit("conn-");
    assert("-"@ =~= seq!['-']);
    law_zero_padding(n, 3);
    assert(numbered_id(n).take(5) =~= seq!['c', 'o', 'n', 'n', '-']);
    assert(numbered_id(n).skip(5) =~= zero_padded(n, 3));
}

/// The row of a node that was found holds what was found of it, and nothing that only an
/// answer can say.
pub proof fn law_row_of_a_found_node(id: Seq<char>, node: NodeModel)
    ensures
        ({
            let r = found_row(id, node);
            &&& r.connection_id == id && r.hostname == node.hostname && r.addr == node.addr
                && r.record_timestamp == node.ts_ms
            &&& r.num == 0 && r.server_gres.len() == 0
            &&& r.last_snapshot is None && r.last_error is None && r.last_query_latency_us is None
        }),
{
}

/// The row of a node that answered holds its answer, its delay and the time, and no
/// error.
pub proof fn law_row_of_an_answer(
    id: Seq<char>,
    addr: AddrView,
    s: SnapshotView,
    latency: Option<u64>,
    now_ms: i64,
)
    ensures
        ({
            let r = answered_row(id, addr, s, latency, now_ms);
            &&& r.connection_id == id && r.addr == addr && r.record_timestamp == now_ms
                && r.last_query_latency_us == latency
            &&& r.last_snapshot == Some(s) && r.hostname == s.hostname
            &&& s.gres.len() <= 255 ==> r.num as nat == s.gres.len()
            &&& s.gres.len() > 255 ==> r.num == 255
            &&& r.last_error is None && r.server_gres.len() == 0
        }),
{
}

/// The row of a node that failed holds its error and the time, and no answer.
pub proof fn law_row_of_a_failure(
    id: Seq<char>,
    addr: AddrView,
    hostname: Seq<char>,
    error: Seq<char>,
    now_ms: i64,
)
    ensures
        ({
            let r = failed_row(id, addr, hostname, error, now_ms);
            &&& r.connection_id == id && r.addr == addr && r.hostname == hostname
                && r.record_timestamp == now_ms
            &&& r.last_error == Some(error)
            &&& r.last_snapshot is None && r.last_query_latency_us is None && r.num == 0
                && r.server_gres.len() == 0
        }),
{
}

/// A row is held against a filter by its name, its address and its id.
pub proof fn law_rows_and_filters(r: RowView, f: FilterView)
    ensures
        row_matches(r, f) <==> filter_matches(f, r.hostname, r.addr, r.connection_id),
{
}

proof fn lemma_found_start(v: Seq<NodeModel>, w: Seq<NodeModel>, n: int)
    requires
        n <= v.len(),
        n <= w.len(),
        forall|i: int| 0 <= i < n ==> v[i] == w[i],
    ensures
        found_rows(v, n) == found_rows(w, n),
    decreases n,
{
    if n > 0 {
        lemma_found_start(v, w, n - 1);
    }
}

/// One more node that was found has a row under its address, numbered by its place; the
/// other rows stay.
pub proof fn law_one_more_found_row(nodes: Seq<NodeModel>, node: NodeModel, key: Seq<char>)
    ensures
        ({
            let n = nodes.len() as int;
            let before = found_rows(nodes, n);
            let after = found_rows(nodes.push(node), n + 1);
            &&& after.contains_key(row_key(node.addr))
            &&& after[row_key(node.addr)] == found_row(numbered_id((n + 1) as nat), node)
            &&& key != row_key(node.addr) ==> (after.contains_key(key) <==> before.contains_key(
                key,
            ))
            &&& key != row_key(node.addr) && before.contains_key(key) ==> after[key] == before[key]
        }),
        !found_rows(Seq::empty(), 0).contains_key(key),
{
    lemma_found_start(nodes, nodes.push(node), nodes.len() as int);
}

proof fn lemma_with_start(
    rows: Map<Seq<char>, RowView>,
    v: Seq<NodeModel>,
    w: Seq<NodeModel>,
    base: nat,
    n: int,
)
    requires
        n <= v.len(),
        n <= w.len(),
        forall|i: int| 0 <= i < n ==> v[i] == w[i],
    ensures
        rows_with_nodes(rows, v, base, n) == rows_with_nodes(rows, w, base, n),
    decreases n,
{
    if n > 0 {
        lemma_with_start(rows, v, w, base, n - 1);
    }
}

/// One more announced node has a new row, unless its name or its address has one
/// already; the other rows stay.
pub proof fn law_one_more_announced_row(
    rows: Map<Seq<char>, RowView>,
    nodes: Seq<NodeModel>,
    node: NodeModel,
    base: nat,
    key: Seq<char>,
)
    ensures
        ({
            let n = nodes.len() as int;
            let before = rows_with_nodes(rows, nodes, base, n);
            let after = rows_with_nodes(rows, nodes.push(node), base, n + 1);
            let known = before.contains_key(row_key(node.addr)) || exists|k: Seq<char>| #[trigger]
                before.contains_key(k) && before[k].hostname == node.hostname;
            &&& known ==> after == before
            &&& !known ==> {
                &&& after.contains_key(row_key(node.addr))
                &&& after[row_key(node.addr)] == found_row(
                    numbered_id((base + n + 1) as nat),
                    node,
                )
                &&& key != row_key(node.addr) ==> (after.contains_key(key)
                    <==> before.contains_key(key))
                &&& before.contains_key(key) ==> after[key] == before[key]
            }
        }),
        rows_with_nodes(rows, Seq::empty(), base, 0) == rows,
{
    lemma_with_start(rows, nodes, nodes.push(node), base, nodes.len() as int);
}

} // verus!
