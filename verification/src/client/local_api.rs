//! The state behind the socket for frontends: rows, connections and commands.

use vstd::prelude::*;
use std::collections::HashMap;
use crate::client::adapter::{
    answers, build_query_response, parse_query_request, shown_nodes, QueryRequest, QueryResponse,
};
use crate::client::cache::{
    add_nodes, answered_row, build_cache, failed_row, found_rows, id_of, key_of,
    lemma_rows_with_nodes_keyed, mark_stale, numbered_id, row_key, row_views, rows_keyed,
    rows_with_nodes, upsert_snapshot, CacheMap, ConnectionCacheEntry, RowView,
};
use crate::client::discovery::{
    by_addr, in_addr_order, lists, merge_discovered_nodes, node_views, DiscoveredNode, NodeModel,
};
use crate::client::filter::NodeFilter;
use crate::common::net::{addr_key, addr_text, AddrView, NodeAddr};
use crate::common::snapshot::{ServerGresSnapshot, SnapshotView};
use crate::sorted::{in_order, join, joined_with, pair_views, sorts};
use crate::text::{
    begins, opt_str, push_signed, same, signed_decimal, strip_prefix, texts, trim, trimmed,
};
use crate::textmap::TextMap;

verus! {

pub const DEFAULT_BACKEND_SOCKET: &'static str = "/run/gpustat4cluster/client.sock";

pub const BACKEND_SOCKET_ENV: &'static str = "GPUSTAT4CLUSTER_BACKEND_SOCKET";

/// A path that says something, without the spaces around it.
pub open spec fn given_path(raw: Option<Seq<char>>) -> Option<Seq<char>> {
    match raw {
        Some(s) => if trimmed(s).len() == 0 {
            None
        } else {
            Some(trimmed(s))
        },
        None => None,
    }
}

/// A path that says something, without the spaces around it.
pub fn path_given(raw: Option<&str>) -> (r: Option<String>)
    ensures
        match r {
            Some(s) => given_path(opt_str(raw)) == Some(s@),
            None => given_path(opt_str(raw)) is None,
        },
{
    match raw {
        Some(s) => {
            let t = trim(s);
            if t.as_str().is_empty() {
                None
            } else {
                Some(t)
            }
        },
        None => None,
    }
}

/// Where the socket for frontends is: the path in the environment, else the
/// configured one, else the default.
pub fn uds_path_from_config_or_env(env: Option<&str>, configured_uds_path: Option<&str>) -> (r:
    String)
    ensures
        r@ == (match given_path(opt_str(env)) {
            Some(path) => path,
            None => match given_path(opt_str(configured_uds_path)) {
                Some(path) => path,
                None => DEFAULT_BACKEND_SOCKET@,
            },
        }),
{
    match path_given(env) {
        Some(path) => path,
        None => match path_given(configured_uds_path) {
            Some(path) => path,
            None => DEFAULT_BACKEND_SOCKET.to_owned(),
        },
    }
}

// ---------------------------------------------------------------------------
// The state

/// A node to which there is a connection.
#[derive(Debug)]
pub struct ConnectionInfo {
    pub addr: NodeAddr,
    pub hostname: String,
    pub gres_num: u8,
}

pub struct ConnectionModel {
    pub addr: AddrView,
    pub hostname: Seq<char>,
    pub gres_num: u8,
}

impl View for ConnectionInfo {
    type V = ConnectionModel;

    open spec fn view(&self) -> ConnectionModel {
        ConnectionModel { addr: self.addr@, hostname: self.hostname@, gres_num: self.gres_num }
    }
}

/// The models of the connections.
pub open spec fn connection_views(m: Map<Seq<char>, ConnectionInfo>) -> Map<
    Seq<char>,
    ConnectionModel,
> {
    m.map_values(|c: ConnectionInfo| c@)
}

/// What the backend knows. Connections are kept by address.
pub struct LocalApiState {
    cache: CacheMap,
    cache_ttl_ms: u64,
    transport_protocol: String,
    max_connections: usize,
    test_endpoints: bool,
    connections: TextMap<ConnectionInfo>,
    connecting: TextMap<()>,
}

pub struct StateView {
    pub rows: Map<Seq<char>, RowView>,
    pub cache_ttl_ms: u64,
    pub transport_protocol: Seq<char>,
    pub max_connections: usize,
    pub test_endpoints: bool,
    pub connections: Map<Seq<char>, ConnectionModel>,
    pub connecting: Set<Seq<char>>,
}

impl View for LocalApiState {
    type V = StateView;

    closed spec fn view(&self) -> StateView {
        StateView {
            rows: row_views(self.cache@),
            cache_ttl_ms: self.cache_ttl_ms,
            transport_protocol: self.transport_protocol@,
            max_connections: self.max_connections,
            test_endpoints: self.test_endpoints,
            connections: connection_views(self.connections@),
            connecting: self.connecting@.dom(),
        }
    }
}

/// Whether some connection is to the given host.
pub open spec fn host_connected(
    connections: Map<Seq<char>, ConnectionModel>,
    hostname: Seq<char>,
) -> bool {
    exists|k: Seq<char>| #[trigger]
        connections.contains_key(k) && connections[k].hostname == hostname
}

/// Whether the pool is in order: no more connections than allowed, each under
/// its own address, and no two to the same host.
pub open spec fn pool_ok(s: StateView) -> bool {
    &&& s.connections.dom().finite()
    &&& s.connections.dom().len() <= s.max_connections
    &&& forall|k: Seq<char>| #[trigger]
        s.connections.contains_key(k) ==> addr_key(s.connections[k].addr) == k
    &&& forall|j: Seq<char>, k: Seq<char>| #[trigger]
        s.connections.contains_key(j) && #[trigger] s.connections.contains_key(k) && j != k
            ==> s.connections[j].hostname != s.connections[k].hostname
}

/// The protocol in use: anything unknown counts as UDP.
pub open spec fn protocol_in_use(raw: Seq<char>) -> Seq<char> {
    if raw == "tcp"@ {
        "tcp"@
    } else {
        "udp"@
    }
}

/// What to do about a connection to an address.
#[derive(Debug, Clone, Copy, PartialEq, Eq, Structural)]
pub enum ConnectStep {
    /// There is one.
    Connected,
    /// There are as many as allowed.
    PoolFull,
    /// One is being opened.
    InProgress,
    /// Open one.
    Connect,
}

/// What to do about a connection to an address.
pub open spec fn connect_step(s: StateView, addr: AddrView) -> ConnectStep {
    let key = addr_key(addr);
    if s.connections.contains_key(key) {
        ConnectStep::Connected
    } else if s.connections.dom().len() >= s.max_connections {
        ConnectStep::PoolFull
    } else if s.connecting.contains(key) {
        ConnectStep::InProgress
    } else {
        ConnectStep::Connect
    }
}

/// What became of a connection that was opened.
#[derive(Debug, Clone, Copy, PartialEq, Eq, Structural)]
pub enum ConnectOutcome {
    Failed,
    DuplicateSession,
    DuplicateHost,
    PoolFull,
    Connected,
}

/// The host name and the number of resources that a node gave.
#[derive(Debug)]
pub struct Peer {
    pub hostname: String,
    pub gres_num: u8,
}

/// What becomes of a connection that was opened.
pub open spec fn connect_outcome(
    s: StateView,
    addr: AddrView,
    peer: Option<Seq<char>>,
) -> ConnectOutcome {
    match peer {
        None => ConnectOutcome::Failed,
        Some(hostname) => if s.connections.contains_key(addr_key(addr)) {
            ConnectOutcome::DuplicateSession
        } else if host_connected(s.connections, hostname) {
            ConnectOutcome::DuplicateHost
        } else if s.connections.dom().len() >= s.max_connections {
            ConnectOutcome::PoolFull
        } else {
            ConnectOutcome::Connected
        },
    }
}

/// The row of a node to which there is a connection: what it held is kept.
pub open spec fn connected_row(
    rows: Map<Seq<char>, RowView>,
    index: nat,
    addr: AddrView,
    hostname: Seq<char>,
    gres_num: u8,
    now_ms: i64,
) -> RowView {
    if rows.contains_key(row_key(addr)) {
        RowView {
            connection_id: numbered_id(index),
            hostname,
            num: gres_num,
            ..rows[row_key(addr)]
        }
    } else {
        RowView {
            connection_id: numbered_id(index),
            hostname,
            num: gres_num,
            server_gres: Seq::empty(),
            record_timestamp: now_ms,
            addr,
            last_snapshot: None,
            last_error: None,
            last_query_latency_us: None,
        }
    }
}

/// The state after a connection was opened, or was not.
pub open spec fn state_connected(
    s: StateView,
    index: nat,
    addr: AddrView,
    peer: Option<(Seq<char>, u8)>,
    now_ms: i64,
) -> StateView {
    let key = addr_key(addr);
    let idle = StateView { connecting: s.connecting.remove(key), ..s };
    match peer {
        None => idle,
        Some((hostname, gres_num)) => match connect_outcome(s, addr, Some(hostname)) {
            ConnectOutcome::DuplicateHost => StateView {
                rows: s.rows.remove(row_key(addr)),
                ..idle
            },
            ConnectOutcome::Connected => StateView {
                connections: s.connections.insert(
                    key,
                    ConnectionModel { addr, hostname, gres_num },
                ),
                rows: s.rows.insert(
                    row_key(addr),
                    connected_row(s.rows, index, addr, hostname, gres_num, now_ms),
                ),
                ..idle
            },
            _ => idle,
        },
    }
}

impl ConnectOutcome {
    /// What a connection that is not kept is told.
    pub fn disconnect_reason(self) -> (r: Option<&'static str>)
        ensures
            match self {
                ConnectOutcome::DuplicateSession => r matches Some(s) && s@
                    == "client duplicate session"@,
                ConnectOutcome::DuplicateHost => r matches Some(s) && s@
                    == "client duplicate hostname"@,
                ConnectOutcome::PoolFull => r matches Some(s) && s@
                    == "client max connections reached"@,
                _ => r is None,
            },
    {
        match self {
            ConnectOutcome::DuplicateSession => Some("client duplicate session"),
            ConnectOutcome::DuplicateHost => Some("client duplicate hostname"),
            ConnectOutcome::PoolFull => Some("client max connections reached"),
            ConnectOutcome::Failed => None,
            ConnectOutcome::Connected => None,
        }
    }
}

/// Writes the row of a node to which there is a connection.
pub fn upsert_connection_placeholder(
    rows: &mut CacheMap,
    index: usize,
    addr: &NodeAddr,
    hostname: &str,
    gres_num: u8,
    now_ms: i64,
)
    requires
        old(rows).wf(),
    ensures
        final(rows).wf(),
        row_views(final(rows)@) == row_views(old(rows)@).insert(
            row_key(addr@),
            connected_row(
                row_views(old(rows)@),
                index as nat,
                addr@,
                hostname@,
                gres_num,
                now_ms,
            ),
        ),
{
    let key = key_of(addr);
    let ghost before = rows@;
    match rows.remove(key.as_str()) {
        Some(e) => {
            let entry = ConnectionCacheEntry {
                connection_id: id_of(index),
                hostname: hostname.to_owned(),
                num: gres_num,
                server_gres: e.server_gres,
                record_timestamp: e.record_timestamp,
                addr: e.addr,
                last_snapshot: e.last_snapshot,
                last_error: e.last_error,
                last_query_latency_us: e.last_query_latency_us,
            };
            rows.insert(key.as_str(), entry);
            proof {
                assert(row_views(before)[key@] == e@);
                assert(row_views(rows@) =~= row_views(before).insert(key@, entry@));
            }
        },
        None => {
            let server_gres: Vec<u8> = Vec::new();
            assert(server_gres@ =~= Seq::empty());
            let entry = ConnectionCacheEntry {
                connection_id: id_of(index),
                hostname: hostname.to_owned(),
                num: gres_num,
                server_gres,
                record_timestamp: now_ms,
                addr: addr.clone(),
                last_snapshot: None,
                last_error: None,
                last_query_latency_us: None,
            };
            rows.insert(key.as_str(), entry);
            proof {
                assert(row_views(rows@) =~= row_views(before).insert(key@, entry@));
            }
        },
    }
}

// ---------------------------------------------------------------------------
// Refreshing

/// A node whose row is to be refreshed.
#[derive(Debug)]
pub struct RefreshTarget {
    pub connection_id: String,
    pub hostname: String,
    pub addr: NodeAddr,
    pub had_snapshot: bool,
}

pub struct TargetView {
    pub connection_id: Seq<char>,
    pub hostname: Seq<char>,
    pub addr: AddrView,
    pub had_snapshot: bool,
}

impl View for RefreshTarget {
    type V = TargetView;

    open spec fn view(&self) -> TargetView {
        TargetView {
            connection_id: self.connection_id@,
            hostname: self.hostname@,
            addr: self.addr@,
            had_snapshot: self.had_snapshot,
        }
    }
}

/// The models of targets.
pub open spec fn target_views(v: Seq<RefreshTarget>) -> Seq<TargetView> {
    v.map_values(|t: RefreshTarget| t@)
}

/// The age of a row, as far as a signed number holds it.
pub open spec fn row_age(now_ms: i64, then_ms: i64) -> int {
    let d = now_ms - then_ms;
    if d > i64::MAX {
        i64::MAX as int
    } else if d < i64::MIN {
        i64::MIN as int
    } else {
        d
    }
}

/// Whether a row has to be refreshed: it holds no snapshot, or an old one.
pub open spec fn is_stale(row: RowView, ttl_ms: u64, now_ms: i64) -> bool {
    row.last_snapshot is None || row_age(now_ms, row.record_timestamp) > ttl_ms
}

fn stale(row: &ConnectionCacheEntry, ttl_ms: u64, now_ms: i64) -> (r: bool)
    ensures
        r == is_stale(row@, ttl_ms, now_ms),
{
    if row.last_snapshot.is_none() {
        return true;
    }
    let d: i128 = now_ms as i128 - row.record_timestamp as i128;
    let age: i128 = if d > i64::MAX as i128 {
        i64::MAX as i128
    } else if d < i64::MIN as i128 {
        i64::MIN as i128
    } else {
        d
    };
    age > ttl_ms as i128
}

/// What is refreshed of a row.
pub open spec fn target_of(row: RowView) -> TargetView {
    TargetView {
        connection_id: row.connection_id,
        hostname: row.hostname,
        addr: row.addr,
        had_snapshot: row.last_snapshot is Some,
    }
}

/// Whether `keys` are those of the rows that have to be refreshed, each once.
pub open spec fn stale_keys(
    keys: Seq<Seq<char>>,
    rows: Map<Seq<char>, RowView>,
    ttl_ms: u64,
    now_ms: i64,
) -> bool {
    &&& keys.no_duplicates()
    &&& forall|k: Seq<char>|
        keys.contains(k) <==> #[trigger] rows.contains_key(k) && is_stale(rows[k], ttl_ms, now_ms)
}

/// The targets for a list of rows.
pub open spec fn targets_for(keys: Seq<Seq<char>>, rows: Map<Seq<char>, RowView>) -> Seq<TargetView> {
    keys.map_values(|k: Seq<char>| target_of(rows[k]))
}

/// Whether `id` is the connection id of a row with the given address, or
/// stands for none.
pub open spec fn known_as(rows: Map<Seq<char>, RowView>, addr: AddrView, id: Seq<char>) -> bool {
    if exists|k: Seq<char>| #[trigger] rows.contains_key(k) && rows[k].addr == addr {
        exists|k: Seq<char>| #[trigger]
            rows.contains_key(k) && rows[k].addr == addr && rows[k].connection_id == id
    } else {
        id == "conn-unknown"@
    }
}

/// The state after a query of a target was answered.
pub open spec fn state_answered(
    s: StateView,
    t: TargetView,
    snapshot: SnapshotView,
    latency_us: u128,
    now_ms: i64,
) -> StateView {
    StateView {
        rows: s.rows.insert(
            row_key(t.addr),
            answered_row(
                t.connection_id,
                t.addr,
                snapshot,
                Some(
                    if latency_us > u64::MAX {
                        u64::MAX
                    } else {
                        latency_us as u64
                    },
                ),
                now_ms,
            ),
        ),
        ..s
    }
}

/// The state after a node has failed: the connection is gone and the row says
/// why.
pub open spec fn state_failed(
    s: StateView,
    id: Seq<char>,
    addr: AddrView,
    hostname: Seq<char>,
    error: Seq<char>,
    now_ms: i64,
) -> StateView {
    StateView {
        connections: s.connections.remove(addr_key(addr)),
        rows: s.rows.insert(row_key(addr), failed_row(id, addr, hostname, error, now_ms)),
        ..s
    }
}

/// The error where there is no connection to a node.
pub open spec fn no_connection_text(s: StateView, addr: AddrView) -> Seq<char> {
    "no "@ + protocol_in_use(s.transport_protocol) + " connection for "@ + addr_text(addr)
}

/// What to do next to refresh the rows.
#[derive(Debug)]
pub enum RefreshAction {
    /// Ask the target, over its connection.
    Query,
    /// Open a connection to the target, under the given number.
    Connect { index: usize },
    /// Give up, for the given reason.
    Fail(String),
    /// All targets have been asked.
    Done,
}

/// The targets of a query, asked one after another.
pub struct Refresh {
    targets: Vec<RefreshTarget>,
    at: usize,
    tried: bool,
}

pub struct RefreshView {
    /// The targets that are still to be asked.
    pub left: Seq<TargetView>,
    /// Whether a connection to the first of them was to be opened.
    pub tried: bool,
}

impl View for Refresh {
    type V = RefreshView;

    closed spec fn view(&self) -> RefreshView {
        RefreshView { left: target_views(self.targets@).skip(self.at as int), tried: self.tried }
    }
}

/// Whether an action is what to do next.
pub open spec fn next_action(run: RefreshView, s: StateView, action: RefreshAction) -> bool {
    if run.left.len() == 0 {
        action == RefreshAction::Done
    } else if s.connections.contains_key(addr_key(run.left[0].addr)) {
        action == RefreshAction::Query
    } else if run.tried {
        action matches RefreshAction::Fail(e) && e@ == no_connection_text(s, run.left[0].addr)
    } else {
        action matches RefreshAction::Connect { index } && index == s.rows.dom().len() + 1
    }
}

impl Refresh {
    pub closed spec fn wf(&self) -> bool {
        self.at <= self.targets@.len()
    }

    /// The targets whose rows are stale.
    pub fn start(state: &LocalApiState, now_ms: i64) -> (r: Refresh)
        requires
            state.wf(),
        ensures
            r.wf(),
            !r@.tried,
            exists|keys: Seq<Seq<char>>| #[trigger]
                stale_keys(keys, state@.rows, state@.cache_ttl_ms, now_ms) && r@.left
                    == targets_for(keys, state@.rows),
    {
        let targets = state.stale_targets(now_ms);
        assert(target_views(targets@).skip(0) =~= target_views(targets@));
        Refresh { targets, at: 0, tried: false }
    }

    /// The target to connect to, or to ask.
    pub fn target(&self) -> (r: Option<&RefreshTarget>)
        requires
            self.wf(),
        ensures
            match r {
                Some(t) => self@.left.len() > 0 && t@ == self@.left[0],
                None => self@.left.len() == 0,
            },
    {
        if self.at < self.targets.len() {
            Some(&self.targets[self.at])
        } else {
            None
        }
    }

    /// Decides what to do next. A target without a connection gets one chance
    /// to have one opened.
    pub fn next(&mut self, state: &LocalApiState) -> (r: RefreshAction)
        requires
            old(self).wf(),
            state.wf(),
            state@.rows.dom().len() < usize::MAX,
        ensures
            final(self).wf(),
            next_action(old(self)@, state@, r),
            final(self)@ == (RefreshView {
                tried: old(self)@.tried || r is Connect,
                ..old(self)@
            }),
    {
        if self.at >= self.targets.len() {
            return RefreshAction::Done;
        }
        let addr = self.targets[self.at].addr.clone();
        assert(self@.left[0] == self.targets@[self.at as int]@);
        if state.is_connected(&addr) {
            return RefreshAction::Query;
        }
        if self.tried {
            return RefreshAction::Fail(state.no_connection(&addr));
        }
        self.tried = true;
        RefreshAction::Connect { index: state.row_count() + 1 }
    }

    /// Takes in what the target has answered, or why it has not, and goes on to
    /// the next.
    pub fn finish(
        &mut self,
        state: &mut LocalApiState,
        outcome: Result<ServerGresSnapshot, String>,
        latency_us: u128,
        now_ms: i64,
    )
        requires
            old(self).wf(),
            old(self)@.left.len() > 0,
            old(state).wf(),
        ensures
            final(self).wf(),
            final(self)@ == (RefreshView { left: old(self)@.left.skip(1), tried: false }),
            final(state).wf(),
            final(state)@ == (match outcome {
                Ok(snapshot) => state_answered(
                    old(state)@,
                    old(self)@.left[0],
                    snapshot@,
                    latency_us,
                    now_ms,
                ),
                Err(e) => state_failed(
                    old(state)@,
                    old(self)@.left[0].connection_id,
                    old(self)@.left[0].addr,
                    old(self)@.left[0].hostname,
                    e@,
                    now_ms,
                ),
            }),
    {
        let total: usize = self.targets.len();
        assert(self.at < total);
        assert(self@.left[0] == self.targets@[self.at as int]@);
        state.finish_query(&self.targets[self.at], outcome, latency_us, now_ms);
        self.at = self.at + 1;
        self.tried = false;
        assert(self@.left =~= old(self)@.left.skip(1));
    }
}

// ---------------------------------------------------------------------------
// Commands

/// What a command asks for.
#[derive(Debug)]
pub enum CommandStep {
    Reply(String),
    Query(QueryRequest),
    Failed(String),
}

/// The line of a row in a listing.
pub open spec fn list_line(row: RowView) -> Seq<char> {
    row.connection_id + " "@ + row.hostname + " "@ + addr_text(row.addr) + " "@ + signed_decimal(
        row.record_timestamp as int,
    ) + "\n"@
}

/// Whether `keys` are those of the rows, each once.
pub open spec fn all_keys(keys: Seq<Seq<char>>, rows: Map<Seq<char>, RowView>) -> bool {
    &&& keys.no_duplicates()
    &&& forall|k: Seq<char>| keys.contains(k) <==> #[trigger] rows.contains_key(k)
}

/// The lines of the rows by connection id.
pub open spec fn lines_for(keys: Seq<Seq<char>>, rows: Map<Seq<char>, RowView>) -> Seq<
    (Seq<char>, Seq<char>),
> {
    keys.map_values(|k: Seq<char>| (rows[k].connection_id, list_line(rows[k])))
}

/// Whether a text lists the rows in the order of their connection ids.
pub open spec fn is_listing(rows: Map<Seq<char>, RowView>, text: Seq<char>) -> bool {
    exists|keys: Seq<Seq<char>>, order: Seq<(Seq<char>, Seq<char>)>| #[trigger]
        all_keys(keys, rows) && #[trigger] sorts(order, lines_for(keys, rows)) && text
            == joined_with(order, ""@)
}

/// The keys by themselves.
pub open spec fn keys_for(keys: Seq<Seq<char>>) -> Seq<(Seq<char>, Seq<char>)> {
    keys.map_values(|k: Seq<char>| (k, k))
}

/// Whether a text lists the keys of the rows in their order.
pub open spec fn is_key_list(rows: Map<Seq<char>, RowView>, text: Seq<char>) -> bool {
    exists|keys: Seq<Seq<char>>, order: Seq<(Seq<char>, Seq<char>)>| #[trigger]
        all_keys(keys, rows) && #[trigger] sorts(order, keys_for(keys)) && text == joined_with(
            order,
            ","@,
        ) + "\n"@
}

fn push_line(out: &mut String, row: &ConnectionCacheEntry)
    ensures
        final(out)@ == old(out)@ + list_line(row@),
{
    out.append(row.connection_id.as_str());
    out.append(" ");
    out.append(row.hostname.as_str());
    out.append(" ");
    out.append(row.addr.text().as_str());
    out.append(" ");
    push_signed(out, row.record_timestamp);
    out.append("\n");
    assert(out@ =~= old(out)@ + list_line(row@));
}

impl LocalApiState {
    /// The maps are sound, every row stands under the key of its own address,
    /// and the pool is in order.
    pub closed spec fn wf(&self) -> bool {
        &&& self.cache.wf()
        &&& rows_keyed(row_views(self.cache@))
        &&& self.connections.wf()
        &&& self.connecting.wf()
        &&& pool_ok(self@)
    }

    /// A state without connections.
    pub fn new(
        cache: CacheMap,
        cache_ttl_ms: u64,
        transport_protocol: String,
        max_connections: usize,
        test_endpoints: bool,
    ) -> (r: LocalApiState)
        requires
            cache.wf(),
            rows_keyed(row_views(cache@)),
        ensures
            r.wf(),
            r@ == (StateView {
                rows: row_views(cache@),
                cache_ttl_ms,
                transport_protocol: transport_protocol@,
                max_connections,
                test_endpoints,
                connections: Map::empty(),
                connecting: Set::empty(),
            }),
    {
        let r = LocalApiState {
            cache,
            cache_ttl_ms,
            transport_protocol,
            max_connections,
            test_endpoints,
            connections: TextMap::new(),
            connecting: TextMap::new(),
        };
        assert(r@.connections =~= Map::empty());
        assert(r@.connecting =~= Set::empty());
        r
    }

    /// What is known of the pool.
    proof fn lemma_pool(&self)
        requires
            self.wf(),
        ensures
            pool_ok(self@),
            self@.connections.dom() == self.connections@.dom(),
            self@.connections.dom().len() == self.connections.spec_keys().len(),
    {
        self.connections.lemma_len();
        assert(self@.connections.dom() =~= self.connections@.dom());
    }

    /// The pool of every state is in order.
    pub proof fn law_pool_in_order(&self)
        requires
            self.wf(),
        ensures
            pool_ok(self@),
    {
    }

    /// Every row of every state stands under the key of its own address.
    pub proof fn law_rows_under_their_addresses(&self)
        requires
            self.wf(),
        ensures
            rows_keyed(self@.rows),
    {
    }

    /// The protocol in use.
    pub fn protocol(&self) -> (r: &'static str)
        ensures
            r@ == protocol_in_use(self@.transport_protocol),
    {
        if same(self.transport_protocol.as_str(), "tcp") {
            "tcp"
        } else {
            "udp"
        }
    }

    /// The rows.
    pub fn rows(&self) -> (r: &CacheMap)
        requires
            self.wf(),
        ensures
            r.wf(),
            row_views(r@) == self@.rows,
    {
        &self.cache
    }

    /// Adds rows for nodes that have announced themselves.
    pub fn add_discovered_nodes(&mut self, nodes: &Vec<DiscoveredNode>)
        requires
            old(self).wf(),
            old(self)@.rows.dom().len() + nodes@.len() <= usize::MAX,
        ensures
            final(self).wf(),
            final(self)@ == (StateView {
                rows: rows_with_nodes(
                    old(self)@.rows,
                    node_views(nodes@),
                    old(self)@.rows.dom().len(),
                    nodes@.len() as int,
                ),
                ..old(self)@
            }),
    {
        proof {
            self.cache.lemma_len();
            assert(self@.rows.dom() =~= self.cache@.dom());
            lemma_rows_with_nodes_keyed(
                self@.rows,
                node_views(nodes@),
                self@.rows.dom().len(),
                nodes@.len() as int,
            );
        }
        add_nodes(&mut self.cache, nodes);
    }

    /// Whether nodes have to be looked for before a query: there are no rows.
    pub fn needs_nodes(&self) -> (r: bool)
        requires
            self.wf(),
        ensures
            r == (self@.rows.dom().len() == 0),
    {
        self.row_count() == 0
    }

    /// Fills the rows with nodes that were found before a query, unless there
    /// are rows by now.
    pub fn populate(&mut self, found: &Vec<DiscoveredNode>, static_nodes: &Vec<DiscoveredNode>)
        requires
            old(self).wf(),
        ensures
            final(self).wf(),
            exists|nodes: Seq<NodeModel>|
                in_addr_order(nodes) && #[trigger] lists(
                    nodes,
                    by_addr(
                        node_views(found@) + node_views(static_nodes@),
                        (found@.len() + static_nodes@.len()) as int,
                    ),
                ) && final(self)@ == (if old(self)@.rows.dom().len() == 0 && nodes.len() > 0 {
                    StateView { rows: found_rows(nodes, nodes.len() as int), ..old(self)@ }
                } else {
                    old(self)@
                }),
    {
        let nodes = merge_discovered_nodes(found, static_nodes);
        let ghost models = node_views(nodes@);
        if nodes.len() > 0 && self.needs_nodes() {
            self.cache = build_cache(&nodes);
        }
        assert(lists(
            models,
            by_addr(
                node_views(found@) + node_views(static_nodes@),
                (found@.len() + static_nodes@.len()) as int,
            ),
        ));
    }

    /// Whether there is a connection to an address.
    pub fn is_connected(&self, addr: &NodeAddr) -> (r: bool)
        requires
            self.wf(),
        ensures
            r == self@.connections.contains_key(addr_key(addr@)),
    {
        self.connections.contains(addr.key().as_str())
    }

    /// Decides whether a connection is to be opened, and notes that it is.
    pub fn begin_connect(&mut self, addr: &NodeAddr) -> (r: ConnectStep)
        requires
            old(self).wf(),
        ensures
            final(self).wf(),
            r == connect_step(old(self)@, addr@),
            final(self)@ == (if r == ConnectStep::Connect {
                StateView {
                    connecting: old(self)@.connecting.insert(addr_key(addr@)),
                    ..old(self)@
                }
            } else {
                old(self)@
            }),
    {
        let key = addr.key();
        proof {
            self.lemma_pool();
        }
        if self.connections.contains(key.as_str()) {
            return ConnectStep::Connected;
        }
        if self.connections.len() >= self.max_connections {
            return ConnectStep::PoolFull;
        }
        if self.connecting.contains(key.as_str()) {
            return ConnectStep::InProgress;
        }
        self.connecting.insert(key.as_str(), ());
        assert(self@.connecting =~= old(self)@.connecting.insert(key@));
        ConnectStep::Connect
    }

    /// Whether some connection is to the given host.
    fn knows_connected(&self, hostname: &str) -> (r: bool)
        requires
            self.wf(),
        ensures
            r == host_connected(self@.connections, hostname@),
    {
        let n: usize = self.connections.len();
        let ghost keys = self.connections.spec_keys();
        let ghost views = self@.connections;
        proof {
            self.connections.lemma_keys();
        }
        let mut i: usize = 0;
        while i < n
            invariant
                i <= n == self.connections.spec_keys().len(),
                self.connections.wf(),
                keys == self.connections.spec_keys(),
                views == connection_views(self.connections@),
                forall|k: Seq<char>|
                    keys.contains(k) <==> #[trigger] self.connections@.contains_key(k),
                forall|j: int| 0 <= j < i ==> views[#[trigger] keys[j]].hostname != hostname@,
            decreases n - i,
        {
            let c = self.connections.value_at(i);
            assert(views[keys[i as int]] == c@);
            if same(c.hostname.as_str(), hostname) {
                assert(views.contains_key(keys[i as int]));
                return true;
            }
            i = i + 1;
        }
        proof {
            if host_connected(views, hostname@) {
                let k = choose|k: Seq<char>| #[trigger]
                    views.contains_key(k) && views[k].hostname == hostname@;
                assert(self.connections@.contains_key(k));
                let j = keys.index_of(k);
                assert(keys.contains(k));
                assert(keys[j] == k);
            }
        }
        false
    }

    /// Takes in what became of a connection that was to be opened. One that is
    /// not kept is to be told why (see [`ConnectOutcome::disconnect_reason`]).
    pub fn finish_connect(
        &mut self,
        index: usize,
        addr: &NodeAddr,
        peer: Option<Peer>,
        now_ms: i64,
    ) -> (r: ConnectOutcome)
        requires
            old(self).wf(),
        ensures
            final(self).wf(),
            r == connect_outcome(
                old(self)@,
                addr@,
                match peer {
                    Some(p) => Some(p.hostname@),
                    None => None,
                },
            ),
            final(self)@ == state_connected(
                old(self)@,
                index as nat,
                addr@,
                match peer {
                    Some(p) => Some((p.hostname@, p.gres_num)),
                    None => None,
                },
                now_ms,
            ),
    {
        let key = addr.key();
        let _ = self.connecting.remove(key.as_str());
        assert(self@.connecting =~= old(self)@.connecting.remove(key@));
        let peer = match peer {
            Some(p) => p,
            None => {
                return ConnectOutcome::Failed;
            },
        };
        proof {
            self.lemma_pool();
        }
        if self.connections.contains(key.as_str()) {
            return ConnectOutcome::DuplicateSession;
        }
        if self.knows_connected(peer.hostname.as_str()) {
            let row = key_of(addr);
            let ghost before = self.cache@;
            let _ = self.cache.remove(row.as_str());
            assert(row_views(self.cache@) =~= row_views(before).remove(row@));
            return ConnectOutcome::DuplicateHost;
        }
        if self.connections.len() >= self.max_connections {
            return ConnectOutcome::PoolFull;
        }
        upsert_connection_placeholder(
            &mut self.cache,
            index,
            addr,
            peer.hostname.as_str(),
            peer.gres_num,
            now_ms,
        );
        let info = ConnectionInfo {
            addr: addr.clone(),
            hostname: peer.hostname,
            gres_num: peer.gres_num,
        };
        let ghost before = self.connections@;
        self.connections.insert(key.as_str(), info);
        proof {
            assert(self@.connections =~= connection_views(before).insert(key@, info@));
            assert(self@.connections.dom() =~= connection_views(before).dom().insert(key@));
        }
        ConnectOutcome::Connected
    }

    /// The addresses of the connections, to close them all.
    pub fn connected(&self) -> (r: Vec<String>)
        requires
            self.wf(),
        ensures
            texts(r@).no_duplicates(),
            forall|k: Seq<char>|
                texts(r@).contains(k) <==> #[trigger] self@.connections.contains_key(
                    k,
                ),
    {
        let n: usize = self.connections.len();
        let ghost keys = self.connections.spec_keys();
        let mut out: Vec<String> = Vec::new();
        proof {
            self.connections.lemma_keys();
            assert(texts(out@) =~= keys.take(0));
        }
        let mut i: usize = 0;
        while i < n
            invariant
                i <= n == self.connections.spec_keys().len(),
                keys == self.connections.spec_keys(),
                texts(out@) == keys.take(i as int),
            decreases n - i,
        {
            let ghost before = texts(out@);
            out.push(self.connections.key_at(i).clone());
            assert(texts(out@) =~= before.push(keys[i as int]));
            assert(keys.take(i + 1) =~= keys.take(i as int).push(keys[i as int]));
            i = i + 1;
        }
        assert(keys.take(n as int) =~= keys);
        assert(self@.connections.dom() =~= self.connections@.dom());
        assert forall|k: Seq<char>|
            texts(out@).contains(k) <==> #[trigger] self@.connections.contains_key(
                k,
            ) by {
            assert(self.connections@.contains_key(k) <==> keys.contains(k));
        }
        out
    }

    /// The nodes whose rows have to be refreshed before a query is answered.
    pub fn stale_targets(&self, now_ms: i64) -> (r: Vec<RefreshTarget>)
        requires
            self.wf(),
        ensures
            exists|keys: Seq<Seq<char>>| #[trigger]
                stale_keys(keys, self@.rows, self@.cache_ttl_ms, now_ms) && target_views(r@)
                    == targets_for(keys, self@.rows),
    {
        let n: usize = self.cache.len();
        let ghost keys = self.cache.spec_keys();
        let ghost views = self@.rows;
        let ghost mut picked: Seq<Seq<char>> = Seq::empty();
        let mut out: Vec<RefreshTarget> = Vec::new();
        proof {
            self.cache.lemma_keys();
            assert(target_views(out@) =~= targets_for(picked, views));
        }
        let mut i: usize = 0;
        while i < n
            invariant
                i <= n == self.cache.spec_keys().len(),
                self.cache.wf(),
                keys == self.cache.spec_keys(),
                keys.no_duplicates(),
                views == row_views(self.cache@),
                forall|k: Seq<char>| keys.contains(k) <==> #[trigger] self.cache@.contains_key(k),
                picked.no_duplicates(),
                forall|k: Seq<char>| #[trigger]
                    picked.contains(k) <==> keys.take(i as int).contains(k) && is_stale(
                        views[k],
                        self.cache_ttl_ms,
                        now_ms,
                    ),
                target_views(out@) == targets_for(picked, views),
            decreases n - i,
        {
            let row = self.cache.value_at(i);
            let ghost key = keys[i as int];
            let ghost before = picked;
            let ghost shown = target_views(out@);
            assert(views[key] == row@);
            assert(!keys.take(i as int).contains(key));
            if stale(row, self.cache_ttl_ms, now_ms) {
                out.push(
                    RefreshTarget {
                        connection_id: row.connection_id.clone(),
                        hostname: row.hostname.clone(),
                        addr: row.addr.clone(),
                        had_snapshot: row.last_snapshot.is_some(),
                    },
                );
                proof {
                    assert(!before.contains(key));
                    picked = before.push(key);
                    assert(targets_for(picked, views) =~= shown.push(target_of(row@)));
                    assert(target_views(out@) =~= shown.push(target_of(row@)));
                }
            }
            proof {
                let next = keys.take(i + 1);
                assert(next =~= keys.take(i as int).push(key));
                assert forall|k: Seq<char>| #[trigger]
                    picked.contains(k) <==> next.contains(k) && is_stale(
                        views[k],
                        self.cache_ttl_ms,
                        now_ms,
                    ) by {
                    assert(next.last() == key);
                    if keys.take(i as int).contains(k) {
                        let j = keys.take(i as int).index_of(k);
                        assert(next[j] == k);
                    }
                    if next.contains(k) && k != key {
                        let j = next.index_of(k);
                        assert(next[j] == k);
                        assert(keys.take(i as int)[j] == k);
                    }
                    if before.contains(k) && is_stale(row@, self.cache_ttl_ms, now_ms) {
                        let j = before.index_of(k);
                        assert(picked[j] == k);
                    }
                    if picked.contains(k) && k != key {
                        let j = picked.index_of(k);
                        assert(picked[j] == k);
                        if j < before.len() {
                            assert(before[j] == k);
                        }
                    }
                    if is_stale(row@, self.cache_ttl_ms, now_ms) {
                        assert(picked.last() == key);
                    }
                }
            }
            i = i + 1;
        }
        proof {
            assert(keys.take(n as int) =~= keys);
            assert forall|k: Seq<char>|
                picked.contains(k) <==> #[trigger] views.contains_key(k) && is_stale(
                    views[k],
                    self.cache_ttl_ms,
                    now_ms,
                ) by {
                assert(views.contains_key(k) <==> self.cache@.contains_key(k));
                assert(picked.contains(k) <==> keys.take(n as int).contains(k) && is_stale(
                    views[k],
                    self.cache_ttl_ms,
                    now_ms,
                ));
            }
            assert(stale_keys(picked, self@.rows, self@.cache_ttl_ms, now_ms));
        }
        out
    }

    /// How many rows there are.
    pub fn row_count(&self) -> (r: usize)
        requires
            self.wf(),
        ensures
            r == self@.rows.dom().len(),
    {
        proof {
            self.cache.lemma_len();
            assert(self@.rows.dom() =~= self.cache@.dom());
        }
        self.cache.len()
    }

    /// The error where a target cannot be asked.
    fn no_connection(&self, addr: &NodeAddr) -> (r: String)
        ensures
            r@ == no_connection_text(self@, addr@),
    {
        let mut out = "no ".to_owned();
        out.append(self.protocol());
        out.append(" connection for ");
        out.append(addr.text().as_str());
        out
    }

    /// Takes in what a target has answered, or why it has not.
    pub fn finish_query(
        &mut self,
        target: &RefreshTarget,
        outcome: Result<ServerGresSnapshot, String>,
        latency_us: u128,
        now_ms: i64,
    )
        requires
            old(self).wf(),
        ensures
            final(self).wf(),
            final(self)@ == (match outcome {
                Ok(snapshot) => state_answered(old(self)@, target@, snapshot@, latency_us, now_ms),
                Err(e) => state_failed(
                    old(self)@,
                    target@.connection_id,
                    target@.addr,
                    target@.hostname,
                    e@,
                    now_ms,
                ),
            }),
    {
        match outcome {
            Ok(snapshot) => {
                let latency: u64 = if latency_us > u64::MAX as u128 {
                    u64::MAX
                } else {
                    latency_us as u64
                };
                upsert_snapshot(
                    &mut self.cache,
                    target.connection_id.as_str(),
                    &target.addr,
                    snapshot,
                    Some(latency),
                    now_ms,
                );
            },
            Err(e) => {
                self.drop_connection(
                    &target.addr,
                    target.connection_id.as_str(),
                    target.hostname.as_str(),
                    e.as_str(),
                    now_ms,
                );
            },
        }
    }

    fn drop_connection(
        &mut self,
        addr: &NodeAddr,
        id: &str,
        hostname: &str,
        error: &str,
        now_ms: i64,
    )
        requires
            old(self).wf(),
        ensures
            final(self).wf(),
            final(self)@ == state_failed(old(self)@, id@, addr@, hostname@, error@, now_ms),
    {
        let key = addr.key();
        let ghost before = self.connections@;
        proof {
            self.lemma_pool();
        }
        let _ = self.connections.remove(key.as_str());
        proof {
            assert(self@.connections =~= connection_views(before).remove(key@));
            assert(self@.connections.dom() =~= connection_views(before).dom().remove(key@));
        }
        mark_stale(&mut self.cache, id, addr, hostname, error, now_ms);
    }

    /// The connection id of the row with the given address.
    fn id_at(&self, addr: &NodeAddr) -> (r: String)
        requires
            self.wf(),
        ensures
            known_as(self@.rows, addr@, r@),
    {
        let n: usize = self.cache.len();
        let ghost keys = self.cache.spec_keys();
        let ghost views = self@.rows;
        proof {
            self.cache.lemma_keys();
        }
        let mut i: usize = 0;
        while i < n
            invariant
                i <= n == self.cache.spec_keys().len(),
                self.cache.wf(),
                keys == self.cache.spec_keys(),
                views == row_views(self.cache@),
                forall|k: Seq<char>| keys.contains(k) <==> #[trigger] self.cache@.contains_key(k),
                forall|j: int| 0 <= j < i ==> views[#[trigger] keys[j]].addr != addr@,
            decreases n - i,
        {
            let row = self.cache.value_at(i);
            assert(views[keys[i as int]] == row@);
            if row.addr.equals(addr) {
                assert(views.contains_key(keys[i as int]));
                return row.connection_id.clone();
            }
            i = i + 1;
        }
        proof {
            assert forall|k: Seq<char>| #[trigger] views.contains_key(k) implies views[k].addr
                != addr@ by {
                assert(self.cache@.contains_key(k));
                let j = keys.index_of(k);
                assert(keys.contains(k));
                assert(keys[j] == k);
            }
        }
        "conn-unknown".to_owned()
    }

    /// Takes in that a connection no longer answers.
    pub fn heartbeat_failed(
        &mut self,
        addr: &NodeAddr,
        hostname: &str,
        error: &str,
        now_ms: i64,
    )
        requires
            old(self).wf(),
        ensures
            final(self).wf(),
            exists|id: Seq<char>| #[trigger]
                known_as(old(self)@.rows, addr@, id) && final(self)@ == state_failed(
                    old(self)@,
                    id,
                    addr@,
                    hostname@,
                    error@,
                    now_ms,
                ),
    {
        let id = self.id_at(addr);
        assert(known_as(old(self)@.rows, addr@, id@));
        self.drop_connection(addr, id.as_str(), hostname, error, now_ms);
    }

    /// The listing of the rows.
    pub fn list_response(&self) -> (r: String)
        requires
            self.wf(),
        ensures
            is_listing(self@.rows, r@),
    {
        let n: usize = self.cache.len();
        let ghost keys = self.cache.spec_keys();
        let ghost views = self@.rows;
        let mut pairs: Vec<(String, String)> = Vec::new();
        proof {
            self.cache.lemma_keys();
            assert(pair_views(pairs@) =~= lines_for(keys.take(0), views));
        }
        let mut i: usize = 0;
        while i < n
            invariant
                i <= n == self.cache.spec_keys().len(),
                self.cache.wf(),
                keys == self.cache.spec_keys(),
                views == row_views(self.cache@),
                pair_views(pairs@) == lines_for(keys.take(i as int), views),
            decreases n - i,
        {
            let row = self.cache.value_at(i);
            assert(views[keys[i as int]] == row@);
            let mut line = String::new();
            push_line(&mut line, row);
            assert(line@ =~= list_line(row@));
            let ghost before = pair_views(pairs@);
            let ghost pair = (row@.connection_id, list_line(row@));
            pairs.push((row.connection_id.clone(), line));
            assert(pair_views(pairs@) =~= before.push(pair));
            assert(keys.take(i + 1) =~= keys.take(i as int).push(keys[i as int]));
            assert(lines_for(keys.take(i + 1), views) =~= before.push(pair));
            i = i + 1;
        }
        assert(keys.take(n as int) =~= keys);
        let ordered = in_order(pairs);
        proof {
            assert forall|k: Seq<char>| keys.contains(k) <==> #[trigger] views.contains_key(k) by {
                assert(self.cache@.contains_key(k) <==> keys.contains(k));
            }
            assert(all_keys(keys, views));
            assert(sorts(pair_views(ordered@), lines_for(keys, views)));
        }
        join(&ordered, "")
    }

    /// The keys of the rows.
    pub fn keys_response(&self) -> (r: String)
        requires
            self.wf(),
        ensures
            is_key_list(self@.rows, r@),
    {
        let n: usize = self.cache.len();
        let ghost keys = self.cache.spec_keys();
        let ghost views = self@.rows;
        let mut pairs: Vec<(String, String)> = Vec::new();
        proof {
            self.cache.lemma_keys();
            assert(pair_views(pairs@) =~= keys_for(keys.take(0)));
        }
        let mut i: usize = 0;
        while i < n
            invariant
                i <= n == self.cache.spec_keys().len(),
                keys == self.cache.spec_keys(),
                pair_views(pairs@) == keys_for(keys.take(i as int)),
            decreases n - i,
        {
            let key = self.cache.key_at(i);
            let ghost before = pair_views(pairs@);
            pairs.push((key.clone(), key.clone()));
            assert(pair_views(pairs@) =~= before.push((key@, key@)));
            assert(keys.take(i + 1) =~= keys.take(i as int).push(keys[i as int]));
            assert(keys_for(keys.take(i + 1)) =~= before.push((key@, key@)));
            i = i + 1;
        }
        assert(keys.take(n as int) =~= keys);
        let ordered = in_order(pairs);
        proof {
            assert forall|k: Seq<char>| keys.contains(k) <==> #[trigger] views.contains_key(k) by {
                assert(self.cache@.contains_key(k) <==> keys.contains(k));
            }
            assert(all_keys(keys, views));
            assert(sorts(pair_views(ordered@), keys_for(keys)));
        }
        let mut out = join(&ordered, ",");
        out.append("\n");
        out
    }

    /// What a command asks for. `parse` reads the request of a query as JSON.
    pub fn handle_command<P: Fn(&str) -> Result<QueryRequest, String>>(
        &self,
        cmd: &str,
        parse: &P,
    ) -> (r: CommandStep)
        requires
            self.wf(),
            forall|s: &str| #[trigger] call_requires(*parse, (s,)),
        ensures
            self@.test_endpoints && cmd@ == "TEST_GRES_SCHEMA"@ ==> replies(
                r,
                "OK schema=gres\n"@,
            ),
            self@.test_endpoints && cmd@ != "TEST_GRES_SCHEMA"@ && cmd@ == "TEST_CACHE_KEYS"@
                ==> (r matches CommandStep::Reply(s) && is_key_list(self@.rows, s@)),
            !is_test_command(self@, cmd@) && cmd@ == "LIST"@ ==> (r matches CommandStep::Reply(s)
                && is_listing(self@.rows, s@)),
            !is_test_command(self@, cmd@) && cmd@ != "LIST"@ && begins(cmd@, "QUERY"@)
                ==> asks_query(cmd@, *parse, r),
            !is_test_command(self@, cmd@) && cmd@ != "LIST"@ && !begins(cmd@, "QUERY"@)
                ==> replies(r, "ERR unsupported command: "@ + cmd@ + "\n"@),
    {
        if self.test_endpoints {
            if same(cmd, "TEST_GRES_SCHEMA") {
                return CommandStep::Reply("OK schema=gres\n".to_owned());
            }
            if same(cmd, "TEST_CACHE_KEYS") {
                return CommandStep::Reply(self.keys_response());
            }
        }
        if same(cmd, "LIST") {
            return CommandStep::Reply(self.list_response());
        }
        match strip_prefix(cmd, "QUERY") {
            Some(rest) => {
                let payload = trim(rest.as_str());
                proof {
                    reveal_strlit("QUERY");
                }
                match parse_query_request(payload.as_str(), parse) {
                    Ok(request) => CommandStep::Query(request),
                    Err(e) => CommandStep::Failed(e),
                }
            },
            None => {
                let mut out = "ERR unsupported command: ".to_owned();
                out.append(cmd);
                out.append("\n");
                CommandStep::Reply(out)
            },
        }
    }

    /// The answer to a query, once the rows are fresh.
    pub fn query_response(
        &self,
        filter: &NodeFilter,
        user: Option<&str>,
        names: &HashMap<u32, String>,
        now_ms: i64,
    ) -> (r: QueryResponse)
        requires
            self.wf(),
            filter.wf(),
        ensures
            answers(self@.rows, filter@, opt_str(user), names@, now_ms, shown_nodes(r.nodes@)),
            r.meta.status@ == (if r.nodes@.len() == 0 {
                "empty"@
            } else {
                "ok"@
            }),
            r.meta.timestamp_ms == now_ms,
            r.meta.node_count == r.nodes@.len(),
            r.meta.errors@.len() == 0,
    {
        build_query_response(&self.cache, filter, user, names, now_ms)
    }
}

/// Whether a command is one of those for tests, where they are on.
pub open spec fn is_test_command(s: StateView, cmd: Seq<char>) -> bool {
    s.test_endpoints && (cmd == "TEST_GRES_SCHEMA"@ || cmd == "TEST_CACHE_KEYS"@)
}

/// Whether a step is to reply with the given text.
pub open spec fn replies(step: CommandStep, text: Seq<char>) -> bool {
    step matches CommandStep::Reply(s) && s@ == text
}

/// Whether a step is what the request behind `QUERY` asks for.
pub open spec fn asks_query<P: Fn(&str) -> Result<QueryRequest, String>>(
    cmd: Seq<char>,
    parse: P,
    step: CommandStep,
) -> bool {
    let payload = trimmed(cmd.skip(5));
    if payload.len() == 0 {
        step == CommandStep::Query(QueryRequest { filter: None, user: None })
    } else {
        exists|s: &str, p: Result<QueryRequest, String>|
            s@ == payload && #[trigger] call_ensures(parse, (s,), p) && match p {
                Ok(request) => step == CommandStep::Query(request),
                Err(e) => step matches CommandStep::Failed(text) && text@
                    == "invalid QUERY payload: "@ + e@,
            }
    }
}

/// Whether a connection is to be kept alive.
pub fn wants_heartbeat(connection_wants: bool, interval_secs: u64) -> (r: bool)
    ensures
        r == (connection_wants && interval_secs != 0),
{
    connection_wants && interval_secs != 0
}

// ---------------------------------------------------------------------------
// Laws

/// A connection that is dropped leaves room for another to the same host.
pub proof fn law_failed_node_can_reconnect(
    s: StateView,
    id: Seq<char>,
    addr: AddrView,
    hostname: Seq<char>,
    error: Seq<char>,
    now_ms: i64,
)
    requires
        pool_ok(s),
        s.connections.contains_key(addr_key(addr)),
        !s.connecting.contains(addr_key(addr)),
    ensures
        connect_step(state_failed(s, id, addr, hostname, error, now_ms), addr)
            == ConnectStep::Connect,
{
    let after = state_failed(s, id, addr, hostname, error, now_ms);
    assert(after.connections.dom() =~= s.connections.dom().remove(addr_key(addr)));
}

/// Once a target has answered, it is fresh: its row holds the snapshot, and is
/// not refreshed again within the time to live.
pub proof fn law_answered_row_is_fresh(
    s: StateView,
    t: TargetView,
    snapshot: SnapshotView,
    latency_us: u128,
    then_ms: i64,
    now_ms: i64,
)
    requires
        now_ms - then_ms <= s.cache_ttl_ms,
    ensures
        state_answered(s, t, snapshot, latency_us, then_ms).rows[row_key(t.addr)].last_snapshot
            == Some(snapshot),
        !is_stale(
            state_answered(s, t, snapshot, latency_us, then_ms).rows[row_key(t.addr)],
            s.cache_ttl_ms,
            now_ms,
        ),
{
}

/// A refresh writes the row that was stale, whether the target answers or not:
/// no row is added, and no other is touched.
pub proof fn law_refresh_writes_the_stale_row(
    s: StateView,
    key: Seq<char>,
    snapshot: SnapshotView,
    latency_us: u128,
    error: Seq<char>,
    now_ms: i64,
)
    requires
        rows_keyed(s.rows),
        s.rows.contains_key(key),
    ensures
        ({
            let t = target_of(s.rows[key]);
            let answered = state_answered(s, t, snapshot, latency_us, now_ms).rows;
            let failed = state_failed(s, t.connection_id, t.addr, t.hostname, error, now_ms).rows;
            &&& row_key(t.addr) == key
            &&& answered.dom() == s.rows.dom()
            &&& failed.dom() == s.rows.dom()
            &&& answered[key].last_snapshot == Some(snapshot)
            &&& failed[key].last_error == Some(error)
            &&& forall|k: Seq<char>| #[trigger]
                s.rows.contains_key(k) && k != key ==> answered[k] == s.rows[k] && failed[k]
                    == s.rows[k]
        }),
{
    let t = target_of(s.rows[key]);
    assert(state_answered(s, t, snapshot, latency_us, now_ms).rows.dom() =~= s.rows.dom());
    assert(state_failed(s, t.connection_id, t.addr, t.hostname, error, now_ms).rows.dom()
        =~= s.rows.dom());
}

/// A row without a snapshot is refreshed at every query: a node that has failed
/// is tried again.
pub proof fn law_failed_row_is_tried_again(
    s: StateView,
    id: Seq<char>,
    addr: AddrView,
    hostname: Seq<char>,
    error: Seq<char>,
    then_ms: i64,
    now_ms: i64,
)
    ensures
        is_stale(
            state_failed(s, id, addr, hostname, error, then_ms).rows[row_key(addr)],
            s.cache_ttl_ms,
            now_ms,
        ),
{
}

} // verus!
