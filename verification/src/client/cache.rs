//! The rows of the client: what is known of each node.

use vstd::prelude::*;
use crate::client::discovery::{node_views, DiscoveredNode, NodeModel};
use crate::client::filter::{filter_matches, FilterView, NodeFilter};
use crate::common::net::{AddrView, NodeAddr};
use crate::common::snapshot::{opt_text, ServerGresSnapshot, SnapshotView};
use crate::server::model::count_byte;
use crate::text::{decimal, push_decimal, push_zero_padded, same, zero_padded};
use crate::textmap::TextMap;

verus! {

/// What is known of a node.
#[derive(Debug)]
pub struct ConnectionCacheEntry {
    pub connection_id: String,
    pub hostname: String,
    pub num: u8,
    pub server_gres: Vec<u8>,
    /// When the row was written, by the clock of the client.
    pub record_timestamp: i64,
    pub addr: NodeAddr,
    pub last_snapshot: Option<ServerGresSnapshot>,
    pub last_error: Option<String>,
    pub last_query_latency_us: Option<u64>,
}

/// The rows by address.
pub type CacheMap = TextMap<ConnectionCacheEntry>;

pub struct RowView {
    pub connection_id: Seq<char>,
    pub hostname: Seq<char>,
    pub num: u8,
    pub server_gres: Seq<u8>,
    pub record_timestamp: i64,
    pub addr: AddrView,
    pub last_snapshot: Option<SnapshotView>,
    pub last_error: Option<Seq<char>>,
    pub last_query_latency_us: Option<u64>,
}

impl View for ConnectionCacheEntry {
    type V = RowView;

    open spec fn view(&self) -> RowView {
        RowView {
            connection_id: self.connection_id@,
            hostname: self.hostname@,
            num: self.num,
            server_gres: self.server_gres@,
            record_timestamp: self.record_timestamp,
            addr: self.addr@,
            last_snapshot: match self.last_snapshot {
                Some(s) => Some(s@),
                None => None,
            },
            last_error: opt_text(self.last_error),
            last_query_latency_us: self.last_query_latency_us,
        }
    }
}

/// The models of the rows.
pub open spec fn row_views(m: Map<Seq<char>, ConnectionCacheEntry>) -> Map<Seq<char>, RowView> {
    m.map_values(|e: ConnectionCacheEntry| e@)
}

/// The key of a node: its address and port.
pub open spec fn row_key(a: AddrView) -> Seq<char> {
    a.ip + "-"@ + decimal(a.port as nat)
}

/// The key of a node.
pub fn key_of(addr: &NodeAddr) -> (r: String)
    ensures
        r@ == row_key(addr@),
{
    let mut out = addr.ip.clone();
    out.append("-");
    push_decimal(&mut out, addr.port as u64);
    out
}

/// Whether every row stands under the key of its own address.
pub open spec fn rows_keyed(rows: Map<Seq<char>, RowView>) -> bool {
    forall|k: Seq<char>| #[trigger] rows.contains_key(k) ==> row_key(rows[k].addr) == k
}

/// The connection id with the given number.
pub open spec fn numbered_id(n: nat) -> Seq<char> {
    "conn-"@ + zero_padded(n, 3)
}

/// The connection id with the given number.
pub fn id_of(n: usize) -> (r: String)
    ensures
        r@ == numbered_id(n as nat),
{
    let mut out = "conn-".to_owned();
    push_zero_padded(&mut out, n as u64, 3);
    out
}

/// The row of a node that has been found but not asked.
pub open spec fn found_row(connection_id: Seq<char>, node: NodeModel) -> RowView {
    RowView {
        connection_id,
        hostname: node.hostname,
        num: 0,
        server_gres: Seq::empty(),
        record_timestamp: node.ts_ms,
        addr: node.addr,
        last_snapshot: None,
        last_error: None,
        last_query_latency_us: None,
    }
}

/// The row of a node that has been found but not asked.
pub fn found_entry(connection_id: String, node: &DiscoveredNode) -> (r: ConnectionCacheEntry)
    ensures
        r@ == found_row(connection_id@, node@),
{
    let server_gres: Vec<u8> = Vec::new();
    assert(server_gres@ =~= Seq::empty());
    ConnectionCacheEntry {
        connection_id,
        hostname: node.hostname.clone(),
        num: 0,
        server_gres,
        record_timestamp: node.ts_ms,
        addr: node.addr.clone(),
        last_snapshot: None,
        last_error: None,
        last_query_latency_us: None,
    }
}

/// The row of a node that has answered.
pub open spec fn answered_row(
    connection_id: Seq<char>,
    addr: AddrView,
    snapshot: SnapshotView,
    latency_us: Option<u64>,
    now_ms: i64,
) -> RowView {
    RowView {
        connection_id,
        hostname: snapshot.hostname,
        num: count_byte(snapshot.gres.len()),
        server_gres: Seq::empty(),
        record_timestamp: now_ms,
        addr,
        last_snapshot: Some(snapshot),
        last_error: None,
        last_query_latency_us: latency_us,
    }
}

/// The row of a node that has failed.
pub open spec fn failed_row(
    connection_id: Seq<char>,
    addr: AddrView,
    hostname: Seq<char>,
    error: Seq<char>,
    now_ms: i64,
) -> RowView {
    RowView {
        connection_id,
        hostname,
        num: 0,
        server_gres: Seq::empty(),
        record_timestamp: now_ms,
        addr,
        last_snapshot: None,
        last_error: Some(error),
        last_query_latency_us: None,
    }
}

impl ConnectionCacheEntry {
    /// Whether the node of this row matches a filter.
    pub fn matches_filter(&self, filter: &NodeFilter) -> (r: bool)
        requires
            filter.wf(),
        ensures
            r == row_matches(self@, filter@),
    {
        filter.matches_target(self.hostname.as_str(), &self.addr, self.connection_id.as_str())
    }

    /// The row of a node that has answered. Its age is measured by the clock of
    /// the client: the clocks of a cluster drift.
    pub fn from_snapshot(
        connection_id: String,
        addr: NodeAddr,
        snapshot: ServerGresSnapshot,
        last_query_latency_us: Option<u64>,
        now_ms: i64,
    ) -> (r: ConnectionCacheEntry)
        ensures
            r@ == answered_row(connection_id@, addr@, snapshot@, last_query_latency_us, now_ms),
    {
        let n: usize = snapshot.gres.len();
        let num: u8 = if n > 255 {
            255
        } else {
            n as u8
        };
        let server_gres: Vec<u8> = Vec::new();
        assert(server_gres@ =~= Seq::empty());
        ConnectionCacheEntry {
            connection_id,
            hostname: snapshot.hostname.clone(),
            num,
            server_gres,
            record_timestamp: now_ms,
            addr,
            last_snapshot: Some(snapshot),
            last_error: None,
            last_query_latency_us,
        }
    }
}

/// Whether the node of a row matches a filter.
pub open spec fn row_matches(r: RowView, f: FilterView) -> bool {
    filter_matches(f, r.hostname, r.addr, r.connection_id)
}

/// The rows of the first `n` nodes, numbered from one. Of nodes with the same
/// address the last counts.
pub open spec fn found_rows(nodes: Seq<NodeModel>, n: int) -> Map<Seq<char>, RowView>
    decreases n,
{
    if n <= 0 {
        Map::empty()
    } else {
        found_rows(nodes, n - 1).insert(
            row_key(nodes[n - 1].addr),
            found_row(numbered_id(n as nat), nodes[n - 1]),
        )
    }
}

pub proof fn lemma_found_rows_keyed(nodes: Seq<NodeModel>, n: int)
    ensures
        rows_keyed(found_rows(nodes, n)),
    decreases n,
{
    if n > 0 {
        lemma_found_rows_keyed(nodes, n - 1);
    }
}

/// The rows of nodes that have been found.
pub fn build_cache(discovered: &Vec<DiscoveredNode>) -> (r: CacheMap)
    ensures
        r.wf(),
        rows_keyed(row_views(r@)),
        row_views(r@) == found_rows(node_views(discovered@), discovered@.len() as int),
{
    let mut rows: CacheMap = TextMap::new();
    let ghost all = node_views(discovered@);
    let mut i: usize = 0;
    assert(row_views(rows@) =~= Map::empty());
    while i < discovered.len()
        invariant
            i <= discovered@.len(),
            all == node_views(discovered@),
            rows.wf(),
            row_views(rows@) == found_rows(all, i as int),
        decreases discovered@.len() - i,
    {
        let node = &discovered[i];
        let key = key_of(&node.addr);
        let entry = found_entry(id_of(i + 1), node);
        let ghost before = rows@;
        rows.insert(key.as_str(), entry);
        proof {
            assert(all[i as int] == node@);
            assert(row_views(rows@) =~= row_views(before).insert(key@, entry@));
        }
        i = i + 1;
    }
    proof {
        lemma_found_rows_keyed(all, i as int);
    }
    rows
}

/// Writes the row of a node that has answered.
pub fn upsert_snapshot(
    rows: &mut CacheMap,
    connection_id: &str,
    addr: &NodeAddr,
    snapshot: ServerGresSnapshot,
    last_query_latency_us: Option<u64>,
    now_ms: i64,
)
    requires
        old(rows).wf(),
    ensures
        final(rows).wf(),
        row_views(final(rows)@) == row_views(old(rows)@).insert(
            row_key(addr@),
            answered_row(connection_id@, addr@, snapshot@, last_query_latency_us, now_ms),
        ),
{
    let key = key_of(addr);
    let entry = ConnectionCacheEntry::from_snapshot(
        connection_id.to_owned(),
        addr.clone(),
        snapshot,
        last_query_latency_us,
        now_ms,
    );
    let ghost before = rows@;
    rows.insert(key.as_str(), entry);
    assert(row_views(rows@) =~= row_views(before).insert(key@, entry@));
}

/// Writes the row of a node that has failed.
pub fn mark_stale(
    rows: &mut CacheMap,
    connection_id: &str,
    addr: &NodeAddr,
    hostname: &str,
    error: &str,
    now_ms: i64,
)
    requires
        old(rows).wf(),
    ensures
        final(rows).wf(),
        row_views(final(rows)@) == row_views(old(rows)@).insert(
            row_key(addr@),
            failed_row(connection_id@, addr@, hostname@, error@, now_ms),
        ),
{
    let key = key_of(addr);
    let server_gres: Vec<u8> = Vec::new();
    assert(server_gres@ =~= Seq::empty());
    let entry = ConnectionCacheEntry {
        connection_id: connection_id.to_owned(),
        hostname: hostname.to_owned(),
        num: 0,
        server_gres,
        record_timestamp: now_ms,
        addr: addr.clone(),
        last_snapshot: None,
        last_error: Some(error.to_owned()),
        last_query_latency_us: None,
    };
    let ghost before = rows@;
    rows.insert(key.as_str(), entry);
    assert(row_views(rows@) =~= row_views(before).insert(key@, entry@));
}

/// Whether some row has the given host name.
pub open spec fn host_known(rows: Map<Seq<char>, RowView>, hostname: Seq<char>) -> bool {
    exists|k: Seq<char>| #[trigger] rows.contains_key(k) && rows[k].hostname == hostname
}

/// Whether some row has the given host name.
pub fn knows_host(rows: &CacheMap, hostname: &str) -> (r: bool)
    requires
        rows.wf(),
    ensures
        r == host_known(row_views(rows@), hostname@),
{
    let n: usize = rows.len();
    let ghost keys = rows.spec_keys();
    let ghost views = row_views(rows@);
    proof {
        rows.lemma_keys();
    }
    let mut i: usize = 0;
    while i < n
        invariant
            i <= n == rows.spec_keys().len(),
            rows.wf(),
            keys == rows.spec_keys(),
            views == row_views(rows@),
            forall|k: Seq<char>| keys.contains(k) <==> #[trigger] rows@.contains_key(k),
            forall|j: int| 0 <= j < i ==> views[#[trigger] keys[j]].hostname != hostname@,
        decreases n - i,
    {
        let e = rows.value_at(i);
        assert(views[keys[i as int]] == e@);
        if same(e.hostname.as_str(), hostname) {
            assert(views.contains_key(keys[i as int]));
            return true;
        }
        i = i + 1;
    }
    proof {
        if host_known(views, hostname@) {
            let k = choose|k: Seq<char>| #[trigger]
                views.contains_key(k) && views[k].hostname == hostname@;
            assert(rows@.contains_key(k));
            let j = keys.index_of(k);
            assert(keys.contains(k));
            assert(keys[j] == k);
        }
    }
    false
}

/// The rows after the first `n` nodes of an announcement: hosts that are known
/// already, and addresses that have a row, are left alone. The numbers go on
/// from `base`.
pub open spec fn rows_with_nodes(
    rows: Map<Seq<char>, RowView>,
    nodes: Seq<NodeModel>,
    base: nat,
    n: int,
) -> Map<Seq<char>, RowView>
    decreases n,
{
    if n <= 0 {
        rows
    } else {
        let before = rows_with_nodes(rows, nodes, base, n - 1);
        let node = nodes[n - 1];
        if host_known(before, node.hostname) || before.contains_key(row_key(node.addr)) {
            before
        } else {
            before.insert(
                row_key(node.addr),
                found_row(numbered_id((base + n) as nat), node),
            )
        }
    }
}

pub proof fn lemma_rows_with_nodes_keyed(
    rows: Map<Seq<char>, RowView>,
    nodes: Seq<NodeModel>,
    base: nat,
    n: int,
)
    requires
        rows_keyed(rows),
    ensures
        rows_keyed(rows_with_nodes(rows, nodes, base, n)),
    decreases n,
{
    if n > 0 {
        lemma_rows_with_nodes_keyed(rows, nodes, base, n - 1);
    }
}

/// Adds rows for nodes that have announced themselves.
pub fn add_nodes(rows: &mut CacheMap, nodes: &Vec<DiscoveredNode>)
    requires
        old(rows).wf(),
        old(rows).spec_keys().len() + nodes@.len() <= usize::MAX,
    ensures
        final(rows).wf(),
        row_views(final(rows)@) == rows_with_nodes(
            row_views(old(rows)@),
            node_views(nodes@),
            old(rows).spec_keys().len(),
            nodes@.len() as int,
        ),
{
    let base: usize = rows.len();
    let ghost start = row_views(rows@);
    let ghost all = node_views(nodes@);
    let mut i: usize = 0;
    while i < nodes.len()
        invariant
            i <= nodes@.len(),
            base + nodes@.len() <= usize::MAX,
            base == old(rows).spec_keys().len(),
            all == node_views(nodes@),
            rows.wf(),
            row_views(rows@) == rows_with_nodes(start, all, base as nat, i as int),
        decreases nodes@.len() - i,
    {
        let node = &nodes[i];
        assert(all[i as int] == node@);
        let key = key_of(&node.addr);
        if !knows_host(rows, node.hostname.as_str()) && !rows.contains(key.as_str()) {
            let entry = found_entry(id_of(base + i + 1), node);
            let ghost before = rows@;
            rows.insert(key.as_str(), entry);
            assert(row_views(rows@) =~= row_views(before).insert(key@, entry@));
        }
        i = i + 1;
    }
}

/// An announcement never changes or removes a row.
pub proof fn law_announcements_keep_rows(
    rows: Map<Seq<char>, RowView>,
    nodes: Seq<NodeModel>,
    base: nat,
    n: int,
    key: Seq<char>,
)
    requires
        rows.contains_key(key),
    ensures
        rows_with_nodes(rows, nodes, base, n).contains_key(key),
        rows_with_nodes(rows, nodes, base, n)[key] == rows[key],
    decreases n,
{
    if n > 0 {
        law_announcements_keep_rows(rows, nodes, base, n - 1, key);
    }
}

} // verus!
