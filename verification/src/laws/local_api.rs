//! Laws of the client's backend: connections, refreshes and listings.

use vstd::prelude::*;
use crate::cli::backend::backend_socket;
use crate::client::cache::{numbered_id, row_key, RowView};
use crate::client::local_api::{
    all_keys, connect_outcome, connect_step, connected_row, given_path, is_key_list, is_listing,
    is_stale, keys_for, known_as, lines_for, list_line, next_action, protocol_in_use, stale_keys,
    state_answered, state_connected, state_failed, target_of, targets_for, ConnectOutcome,
    ConnectStep, RefreshAction, RefreshView, StateView, TargetView,
};
use crate::common::net::{addr_key, addr_text, AddrView};
use crate::common::snapshot::SnapshotView;
use crate::laws::render::{lemma_occurs_in, lemma_occurs_put, lemma_occurs_self};
use crate::sorted::{joined_with, sorts};
use crate::text::{occurs, signed_decimal, text_before, trimmed};

verus! {

// ---------------------------------------------------------------------------
// Paths

/// The socket of the backend: that of the command line, else that of the environment,
/// else that of the configuration, else the usual one; a blank one is as good as none.
pub proof fn law_backend_socket(
    option: Option<Seq<char>>,
    env: Option<Seq<char>>,
    configured: Option<Seq<char>>,
)
    ensures
        ({
            let r = backend_socket(option, env, configured);
            let a = option is Some && trimmed(option->0).len() > 0;
            let b = env is Some && trimmed(env->0).len() > 0;
            let c = configured is Some && trimmed(configured->0).len() > 0;
            &&& a ==> r == trimmed(option->0)
            &&& !a && b ==> r == trimmed(env->0)
            &&& !a && !b && c ==> r == trimmed(configured->0)
            &&& !a && !b && !c ==> r == "/run/gpustat4cluster/client.sock"@
            &&& a ==> given_path(option) == Some(trimmed(option->0))
            &&& !a ==> given_path(option) is None
        }),
{
}

// ---------------------------------------------------------------------------
// Connections

/// A connection is opened to an address that has none and to which none is being opened,
/// while there are fewer than allowed.
pub proof fn law_when_to_connect(s: StateView, addr: AddrView)
    ensures
        ({
            let step = connect_step(s, addr);
            let there = s.connections.contains_key(addr_key(addr));
            let full = s.connections.dom().len() >= s.max_connections;
            let opening = s.connecting.contains(addr_key(addr));
            &&& there ==> step == ConnectStep::Connected
            &&& !there && full ==> step == ConnectStep::PoolFull
            &&& !there && !full && opening ==> step == ConnectStep::InProgress
            &&& !there && !full && !opening ==> step == ConnectStep::Connect
        }),
{
}

/// What becomes of an opened connection: it is kept, unless its address or its host has
/// one already or there are as many as allowed.
pub proof fn law_what_becomes_of_a_connection(s: StateView, addr: AddrView, hostname: Seq<char>)
    ensures
        connect_outcome(s, addr, None) == ConnectOutcome::Failed,
        ({
            let r = connect_outcome(s, addr, Some(hostname));
            let there = s.connections.contains_key(addr_key(addr));
            let host = exists|k: Seq<char>| #[trigger]
                s.connections.contains_key(k) && s.connections[k].hostname == hostname;
            let full = s.connections.dom().len() >= s.max_connections;
            &&& there ==> r == ConnectOutcome::DuplicateSession
            &&& !there && host ==> r == ConnectOutcome::DuplicateHost
            &&& !there && !host && full ==> r == ConnectOutcome::PoolFull
            &&& !there && !host && !full ==> r == ConnectOutcome::Connected
        }),
{
}

/// The end of opening a connection: it is no longer being opened. A connection that is
/// kept is noted with the name and the number that the node gave, and so is its row; the
/// row of a host that is connected already goes; any other outcome changes nothing else.
pub proof fn law_after_connecting(
    s: StateView,
    index: nat,
    addr: AddrView,
    hostname: Seq<char>,
    gres_num: u8,
    now_ms: i64,
    other: Seq<char>,
)
    ensures
        ({
            let t = state_connected(s, index, addr, None, now_ms);
            &&& t.rows == s.rows && t.connections == s.connections && !t.connecting.contains(
                addr_key(addr),
            )
        }),
        ({
            let r = connect_outcome(s, addr, Some(hostname));
            let t = state_connected(s, index, addr, Some((hostname, gres_num)), now_ms);
            &&& !t.connecting.contains(addr_key(addr))
            &&& other != addr_key(addr) ==> (t.connecting.contains(other)
                <==> s.connecting.contains(other))
            &&& t.cache_ttl_ms == s.cache_ttl_ms && t.max_connections == s.max_connections
                && t.transport_protocol == s.transport_protocol && t.test_endpoints
                == s.test_endpoints
            &&& r == ConnectOutcome::Connected ==> {
                &&& t.connections.contains_key(addr_key(addr))
                &&& t.connections[addr_key(addr)].addr == addr
                &&& t.connections[addr_key(addr)].hostname == hostname
                &&& t.connections[addr_key(addr)].gres_num == gres_num
                &&& t.rows.contains_key(row_key(addr))
                &&& t.rows[row_key(addr)].hostname == hostname
                &&& t.rows[row_key(addr)].num == gres_num
                &&& t.rows[row_key(addr)].connection_id == numbered_id(index)
            }
            &&& r == ConnectOutcome::DuplicateHost ==> t.connections == s.connections
                && !t.rows.contains_key(row_key(addr))
            &&& r == ConnectOutcome::DuplicateSession || r == ConnectOutcome::PoolFull
                ==> t.connections == s.connections && t.rows == s.rows
            &&& other != addr_key(addr) ==> (t.connections.contains_key(other)
                <==> s.connections.contains_key(other))
            &&& other != addr_key(addr) && s.connections.contains_key(other)
                ==> t.connections[other] == s.connections[other]
            &&& other != row_key(addr) ==> (t.rows.contains_key(other) <==> s.rows.contains_key(
                other,
            ))
            &&& other != row_key(addr) && s.rows.contains_key(other) ==> t.rows[other]
                == s.rows[other]
        }),
{
}

/// The row of a connected node keeps what it knew of it; a new one knows nothing yet.
pub proof fn law_row_of_a_connected_node(
    rows: Map<Seq<char>, RowView>,
    index: nat,
    addr: AddrView,
    hostname: Seq<char>,
    gres_num: u8,
    now_ms: i64,
)
    ensures
        ({
            let r = connected_row(rows, index, addr, hostname, gres_num, now_ms);
            let key = row_key(addr);
            &&& r.connection_id == numbered_id(index) && r.hostname == hostname && r.num == gres_num
            &&& rows.contains_key(key) ==> r.last_snapshot == rows[key].last_snapshot
                && r.last_error == rows[key].last_error && r.last_query_latency_us
                == rows[key].last_query_latency_us && r.record_timestamp
                == rows[key].record_timestamp && r.addr == rows[key].addr && r.server_gres
                == rows[key].server_gres
            &&& !rows.contains_key(key) ==> r.last_snapshot is None && r.last_error is None
                && r.last_query_latency_us is None && r.record_timestamp == now_ms && r.addr == addr
                && r.server_gres.len() == 0
        }),
{
}

/// TCP is spoken if it is asked for, and UDP otherwise.
pub proof fn law_protocol_in_use(raw: Seq<char>)
    ensures
        raw == seq!['t', 'c', 'p'] ==> protocol_in_use(raw) == seq!['t', 'c', 'p'],
        raw != seq!['t', 'c', 'p'] ==> protocol_in_use(raw) == seq!['u', 'd', 'p'],
{
    reveal_strlit("tcp");
    reveal_strlit("udp");
    assert("tcp"@ =~= seq!['t', 'c', 'p']);
    assert("udp"@ =~= seq!['u', 'd', 'p']);
}

// ---------------------------------------------------------------------------
// Refreshing

/// A row is stale if it holds no snapshot, or one that is older than allowed.
pub proof fn law_stale_rows(row: RowView, ttl_ms: u64, now_ms: i64)
    requires
        ttl_ms < i64::MAX,
    ensures
        row.last_snapshot is None ==> is_stale(row, ttl_ms, now_ms),
        row.last_snapshot is Some ==> (is_stale(row, ttl_ms, now_ms) <==> now_ms
            - row.record_timestamp > ttl_ms),
{
}

/// The nodes to be asked anew: one for each stale row, and only for those.
pub proof fn law_targets(
    keys: Seq<Seq<char>>,
    rows: Map<Seq<char>, RowView>,
    ttl_ms: u64,
    now_ms: i64,
    key: Seq<char>,
    i: int,
)
    requires
        stale_keys(keys, rows, ttl_ms, now_ms),
    ensures
        targets_for(keys, rows).len() == keys.len(),
        rows.contains_key(key) && is_stale(rows[key], ttl_ms, now_ms) ==> targets_for(
            keys,
            rows,
        ).contains(target_of(rows[key])),
        0 <= i < keys.len() ==> {
            let t = targets_for(keys, rows)[i];
            let row = rows[keys[i]];
            &&& rows.contains_key(keys[i]) && is_stale(row, ttl_ms, now_ms)
            &&& t.connection_id == row.connection_id && t.hostname == row.hostname && t.addr
                == row.addr
            &&& t.had_snapshot <==> row.last_snapshot is Some
        },
        keys.no_duplicates(),
{
    let targets = targets_for(keys, rows);
    if rows.contains_key(key) && is_stale(rows[key], ttl_ms, now_ms) {
        assert(keys.contains(key));
        let j = keys.index_of(key);
        assert(targets[j] == target_of(rows[key]));
    }
    if 0 <= i < keys.len() {
        assert(keys.contains(keys[i]));
    }
}

/// What is done next in a refresh: the first node that is left is asked over its
/// connection; without one, a connection is opened, and after that was tried the node is
/// given up. At the end nothing is done.
pub proof fn law_next_action(run: RefreshView, s: StateView, action: RefreshAction)
    requires
        next_action(run, s, action),
    ensures
        run.left.len() == 0 <==> action is Done,
        run.left.len() > 0 ==> {
            let there = s.connections.contains_key(addr_key(run.left[0].addr));
            &&& there <==> action is Query
            &&& !there && run.tried <==> action is Fail
            &&& !there && !run.tried <==> action is Connect
        },
        action matches RefreshAction::Connect { index } ==> index == s.rows.dom().len() + 1,
        action matches RefreshAction::Fail(e) ==> e@ == "no "@ + protocol_in_use(
            s.transport_protocol,
        ) + " connection for "@ + addr_text(run.left[0].addr),
{
}

/// An answer is written into the row of its node, with the delay that it took, and nothing
/// else changes.
pub proof fn law_answer_is_written(
    s: StateView,
    t: TargetView,
    snapshot: SnapshotView,
    latency_us: u128,
    now_ms: i64,
    other: Seq<char>,
)
    ensures
        ({
            let n = state_answered(s, t, snapshot, latency_us, now_ms);
            let row = n.rows[row_key(t.addr)];
            &&& n.rows.contains_key(row_key(t.addr))
            &&& row.last_snapshot == Some(snapshot) && row.hostname == snapshot.hostname
                && row.connection_id == t.connection_id && row.addr == t.addr
                && row.record_timestamp == now_ms && row.last_error is None
            &&& latency_us <= u64::MAX ==> (row.last_query_latency_us matches Some(d) && d as u128
                == latency_us)
            &&& latency_us > u64::MAX ==> row.last_query_latency_us == Some(u64::MAX)
            &&& n.connections == s.connections && n.connecting == s.connecting
            &&& n.cache_ttl_ms == s.cache_ttl_ms && n.max_connections == s.max_connections
                && n.transport_protocol == s.transport_protocol && n.test_endpoints
                == s.test_endpoints
            &&& other != row_key(t.addr) ==> (n.rows.contains_key(other) <==> s.rows.contains_key(
                other,
            ))
            &&& other != row_key(t.addr) && s.rows.contains_key(other) ==> n.rows[other]
                == s.rows[other]
        }),
{
}

/// A failure is written into the row of its node, and its connection goes; nothing else
/// changes.
pub proof fn law_failure_is_written(
    s: StateView,
    id: Seq<char>,
    addr: AddrView,
    hostname: Seq<char>,
    error: Seq<char>,
    now_ms: i64,
    other: Seq<char>,
)
    ensures
        ({
            let n = state_failed(s, id, addr, hostname, error, now_ms);
            let row = n.rows[row_key(addr)];
            &&& !n.connections.contains_key(addr_key(addr))
            &&& n.rows.contains_key(row_key(addr))
            &&& row.last_error == Some(error) && row.connection_id == id && row.hostname == hostname
                && row.addr == addr && row.record_timestamp == now_ms && row.last_snapshot is None
            &&& n.connecting == s.connecting && n.cache_ttl_ms == s.cache_ttl_ms
                && n.max_connections == s.max_connections && n.transport_protocol
                == s.transport_protocol && n.test_endpoints == s.test_endpoints
            &&& other != addr_key(addr) ==> (n.connections.contains_key(other)
                <==> s.connections.contains_key(other))
            &&& other != addr_key(addr) && s.connections.contains_key(other)
                ==> n.connections[other] == s.connections[other]
            &&& other != row_key(addr) ==> (n.rows.contains_key(other) <==> s.rows.contains_key(
                other,
            ))
            &&& other != row_key(addr) && s.rows.contains_key(other) ==> n.rows[other]
                == s.rows[other]
        }),
{
}

/// A node is called by the id of a row with its address, and `conn-unknown` where there is
/// none.
pub proof fn law_id_of_a_node(rows: Map<Seq<char>, RowView>, addr: AddrView, id: Seq<char>)
    requires
        known_as(rows, addr, id),
    ensures
        id == "conn-unknown"@ || exists|k: Seq<char>| #[trigger]
            rows.contains_key(k) && rows[k].addr == addr && rows[k].connection_id == id,
        (exists|k: Seq<char>| #[trigger] rows.contains_key(k) && rows[k].addr == addr) ==> exists|
            k: Seq<char>,
        | #[trigger]
            rows.contains_key(k) && rows[k].addr == addr && rows[k].connection_id == id,
{
}

// ---------------------------------------------------------------------------
// Listings

/// A line of the listing: id, host name, address and time, with blanks between them.
pub proof fn law_line_of_a_row(row: RowView)
    ensures
        list_line(row) == row.connection_id + seq![' '] + row.hostname + seq![' '] + addr_text(
            row.addr,
        ) + seq![' '] + signed_decimal(row.record_timestamp as int) + seq!['\n'],
{
    reveal_strlit(" ");
    reveal_strlit("\n");
    assert(" "@ =~= seq![' ']);
    assert("\n"@ =~= seq!['\n']);
}

/// Texts are joined with the separator between each two.
pub proof fn law_joined(
    s: Seq<(Seq<char>, Seq<char>)>,
    p: (Seq<char>, Seq<char>),
    sep: Seq<char>,
)
    ensures
        joined_with(Seq::empty(), sep) == Seq::<char>::empty(),
        s.len() == 0 ==> joined_with(s.push(p), sep) == p.1,
        s.len() > 0 ==> joined_with(s.push(p), sep) == joined_with(s, sep) + sep + p.1,
{
    assert(s.push(p).drop_last() =~= s);
}

proof fn lemma_joined_holds(s: Seq<(Seq<char>, Seq<char>)>, sep: Seq<char>, i: int)
    requires
        0 <= i < s.len(),
    ensures
        occurs(joined_with(s, sep), s[i].1),
    decreases s.len(),
{
    let init = s.drop_last();
    let none = Seq::<char>::empty();
    if s.len() == 1 {
        lemma_occurs_self(s[0].1);
    } else if i == s.len() - 1 {
        lemma_occurs_put(joined_with(init, sep) + sep, s.last().1, none);
    } else {
        lemma_joined_holds(init, sep, i);
        lemma_occurs_in(none, joined_with(init, sep), sep, s[i].1);
        lemma_occurs_in(none, joined_with(init, sep) + sep, s.last().1, s[i].1);
    }
}

proof fn lemma_sorted_holds(
    order: Seq<(Seq<char>, Seq<char>)>,
    all: Seq<(Seq<char>, Seq<char>)>,
    i: int,
) -> (j: int)
    requires
        sorts(order, all),
        0 <= i < all.len(),
    ensures
        0 <= j < order.len(),
        order[j] == all[i],
        order.len() == all.len(),
{
    vstd::seq_lib::to_multiset_len(order);
    vstd::seq_lib::to_multiset_len(all);
    vstd::seq_lib::to_multiset_contains(order, all[i]);
    vstd::seq_lib::to_multiset_contains(all, all[i]);
    assert(all.contains(all[i]));
    order.index_of(all[i])
}

/// Every row has its line in the listing, and a listing of no rows is empty.
pub proof fn law_every_row_is_listed(rows: Map<Seq<char>, RowView>, text: Seq<char>, key: Seq<char>)
    requires
        is_listing(rows, text),
    ensures
        rows.contains_key(key) ==> occurs(text, list_line(rows[key])),
        (forall|k: Seq<char>| !#[trigger] rows.contains_key(k)) ==> text == Seq::<char>::empty(),
{
    let (keys, order) = choose|keys: Seq<Seq<char>>, order: Seq<(Seq<char>, Seq<char>)>| #[trigger]
        all_keys(keys, rows) && #[trigger] sorts(order, lines_for(keys, rows)) && text
            == joined_with(order, ""@);
    let all = lines_for(keys, rows);
    if rows.contains_key(key) {
        assert(keys.contains(key));
        let i = keys.index_of(key);
        assert(all[i] == (rows[key].connection_id, list_line(rows[key])));
        let j = lemma_sorted_holds(order, all, i);
        lemma_joined_holds(order, ""@, j);
    }
    if forall|k: Seq<char>| !#[trigger] rows.contains_key(k) {
        if keys.len() > 0 {
            assert(keys.contains(keys[0]));
            assert(rows.contains_key(keys[0]));
        }
        vstd::seq_lib::to_multiset_len(order);
        vstd::seq_lib::to_multiset_len(all);
        assert(order =~= Seq::empty());
    }
}

/// The listing of a single row is its line.
pub proof fn law_single_row_is_listed(
    rows: Map<Seq<char>, RowView>,
    text: Seq<char>,
    key: Seq<char>,
)
    requires
        is_listing(rows, text),
        rows.contains_key(key),
        forall|k: Seq<char>| #[trigger] rows.contains_key(k) ==> k == key,
    ensures
        text == list_line(rows[key]),
{
    let (keys, order) = choose|keys: Seq<Seq<char>>, order: Seq<(Seq<char>, Seq<char>)>| #[trigger]
        all_keys(keys, rows) && #[trigger] sorts(order, lines_for(keys, rows)) && text
            == joined_with(order, ""@);
    let all = lines_for(keys, rows);
    assert(keys.contains(key));
    let i = keys.index_of(key);
    assert(keys.len() == 1) by {
        if keys.len() > 1 {
            assert(keys.contains(keys[0]) && keys.contains(keys[1]));
            assert(rows.contains_key(keys[0]) && rows.contains_key(keys[1]));
            assert(keys[0] == keys[1]);
        }
    }
    assert(all[0] == (rows[key].connection_id, list_line(rows[key])));
    let j = lemma_sorted_holds(order, all, 0);
}

/// Every key of a row occurs in the list of keys, which ends with a line feed.
pub proof fn law_every_key_is_listed(rows: Map<Seq<char>, RowView>, text: Seq<char>, key: Seq<char>)
    requires
        is_key_list(rows, text),
    ensures
        text.len() > 0 && text.last() == '\n',
        rows.contains_key(key) ==> occurs(text, key),
{
    reveal_strlit("\n");
    let (keys, order) = choose|keys: Seq<Seq<char>>, order: Seq<(Seq<char>, Seq<char>)>| #[trigger]
        all_keys(keys, rows) && #[trigger] sorts(order, keys_for(keys)) && text == joined_with(
            order,
            ","@,
        ) + "\n"@;
    let all = keys_for(keys);
    if rows.contains_key(key) {
        assert(keys.contains(key));
        let i = keys.index_of(key);
        assert(all[i] == (key, key));
        let j = lemma_sorted_holds(order, all, i);
        lemma_joined_holds(order, ","@, j);
        lemma_occurs_in(Seq::empty(), joined_with(order, ","@), "\n"@, key);
    }
}

/// What is sorted holds the same, in the order of its keys.
pub proof fn law_sorted(
    s: Seq<(Seq<char>, Seq<char>)>,
    all: Seq<(Seq<char>, Seq<char>)>,
    i: int,
    j: int,
)
    requires
        sorts(s, all),
    ensures
        s.len() == all.len(),
        0 <= i < all.len() ==> s.contains(all[i]),
        0 <= i < j < s.len() ==> !text_before(s[j].0, s[i].0),
{
    vstd::seq_lib::to_multiset_len(s);
    vstd::seq_lib::to_multiset_len(all);
    if 0 <= i < all.len() {
        let k = lemma_sorted_holds(s, all, i);
        assert(s.contains(s[k]));
    }
}

} // verus!
