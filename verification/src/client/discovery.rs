//! Finding nodes: announcements, static nodes and their merging.

use vstd::prelude::*;
use crate::client::json::{
    json_bool, json_bool_at, json_number, json_number_at, json_text, json_text_at,
};
use crate::common::frame::PROTOCOL_VERSION;
use crate::common::message::DiscoveryAnnounce;
use crate::common::net::{addr_text, AddrView, NodeAddr};
use crate::common::snapshot::opt_text;
use crate::server::startup::opt_texts;
use crate::text::{
    before, lemma_text_before_total, lemma_text_before_trans, lowered, same, split, split_on,
    text_before, texts, to_lower, trim, trimmed,
};

verus! {

/// A node that has been found.
#[derive(Debug, PartialEq, Eq)]
pub struct DiscoveredNode {
    pub hostname: String,
    pub addr: NodeAddr,
    pub ts_ms: i64,
}

pub struct NodeModel {
    pub hostname: Seq<char>,
    pub addr: AddrView,
    pub ts_ms: i64,
}

impl View for DiscoveredNode {
    type V = NodeModel;

    open spec fn view(&self) -> NodeModel {
        NodeModel { hostname: self.hostname@, addr: self.addr@, ts_ms: self.ts_ms }
    }
}

impl Clone for DiscoveredNode {
    fn clone(&self) -> (r: DiscoveredNode)
        ensures
            r@ == self@,
    {
        DiscoveredNode {
            hostname: self.hostname.clone(),
            addr: self.addr.clone(),
            ts_ms: self.ts_ms,
        }
    }
}

/// The models of the nodes in a vector.
pub open spec fn node_views(v: Seq<DiscoveredNode>) -> Seq<NodeModel> {
    v.map_values(|n: DiscoveredNode| n@)
}

// ---------------------------------------------------------------------------
// Static nodes

/// An item of a list of static nodes and what it was resolved to.
#[derive(Debug)]
pub enum Resolved {
    Address(NodeAddr),
    /// It was not, for the given reason.
    Failed(String),
}

/// The items of a list of static nodes that are to be resolved: the parts
/// between commas that are not blank.
pub open spec fn static_items(parts: Seq<Seq<char>>) -> Seq<Seq<char>>
    decreases parts.len(),
{
    if parts.len() == 0 {
        Seq::empty()
    } else {
        let before = static_items(parts.drop_last());
        let item = trimmed(parts.last());
        if item.len() == 0 {
            before
        } else {
            before.push(item)
        }
    }
}

/// The items of a list of static nodes that are to be resolved.
pub fn static_node_items(raw: &str) -> (r: Vec<String>)
    ensures
        texts(r@) == static_items(split_on(raw@, ',')),
{
    let parts = split(raw, ',');
    let ghost all = texts(parts@);
    let mut out: Vec<String> = Vec::new();
    let mut i: usize = 0;
    assert(all.take(0) =~= Seq::empty());
    assert(texts(out@) =~= Seq::empty());
    while i < parts.len()
        invariant
            i <= parts@.len(),
            all == texts(parts@),
            texts(out@) == static_items(all.take(i as int)),
        decreases parts@.len() - i,
    {
        let item = trim(parts[i].as_str());
        proof {
            assert(all.take(i + 1).drop_last() =~= all.take(i as int));
            assert(all.take(i + 1).last() == parts@[i as int]@);
        }
        if !item.as_str().is_empty() {
            assert(texts(out@.push(item)) =~= texts(out@).push(item@));
            out.push(item);
        }
        i = i + 1;
    }
    assert(all.take(i as int) =~= all);
    out
}

/// Whether an address is among the nodes.
pub open spec fn addr_among(nodes: Seq<NodeModel>, addr: AddrView) -> bool {
    exists|i: int| 0 <= i < nodes.len() && (#[trigger] nodes[i]).addr == addr
}

/// The nodes for the first `n` items: those that could be resolved, each
/// address once, with the address for a name.
pub open spec fn static_nodes(resolved: Seq<Resolved>, now_ms: i64, n: int) -> Seq<NodeModel>
    decreases n,
{
    if n <= 0 {
        Seq::empty()
    } else {
        let before = static_nodes(resolved, now_ms, n - 1);
        match resolved[n - 1] {
            Resolved::Failed(_) => before,
            Resolved::Address(a) => if addr_among(before, a@) {
                before
            } else {
                before.push(NodeModel { hostname: a@.ip, addr: a@, ts_ms: now_ms })
            },
        }
    }
}

fn has_addr(nodes: &Vec<DiscoveredNode>, addr: &NodeAddr) -> (r: bool)
    ensures
        r == addr_among(node_views(nodes@), addr@),
{
    let ghost all = node_views(nodes@);
    let mut i: usize = 0;
    while i < nodes.len()
        invariant
            i <= nodes@.len(),
            all == node_views(nodes@),
            forall|j: int| 0 <= j < i ==> (#[trigger] all[j]).addr != addr@,
        decreases nodes@.len() - i,
    {
        if nodes[i].addr.equals(addr) {
            assert(all[i as int].addr == addr@);
            return true;
        }
        assert(all[i as int].addr != addr@);
        i = i + 1;
    }
    false
}

/// The static nodes, from what their items were resolved to. An item that
/// could not be resolved is left out.
pub fn parse_static_nodes(resolved: &Vec<Resolved>, now_ms: i64) -> (r: Vec<DiscoveredNode>)
    ensures
        node_views(r@) == static_nodes(resolved@, now_ms, resolved@.len() as int),
{
    let mut out: Vec<DiscoveredNode> = Vec::new();
    let mut i: usize = 0;
    assert(node_views(out@) =~= Seq::empty());
    while i < resolved.len()
        invariant
            i <= resolved@.len(),
            node_views(out@) == static_nodes(resolved@, now_ms, i as int),
        decreases resolved@.len() - i,
    {
        match &resolved[i] {
            Resolved::Address(a) => {
                if !has_addr(&out, a) {
                    let node = DiscoveredNode {
                        hostname: a.ip.clone(),
                        addr: a.clone(),
                        ts_ms: now_ms,
                    };
                    assert(node_views(out@.push(node)) =~= node_views(out@).push(node@));
                    out.push(node);
                }
            },
            Resolved::Failed(_) => {},
        }
        i = i + 1;
    }
    out
}

// ---------------------------------------------------------------------------
// Merging

/// The nodes by address; of nodes with the same address the last counts.
pub open spec fn by_addr(nodes: Seq<NodeModel>, n: int) -> Map<Seq<char>, NodeModel>
    decreases n,
{
    if n <= 0 {
        Map::empty()
    } else {
        by_addr(nodes, n - 1).insert(addr_text(nodes[n - 1].addr), nodes[n - 1])
    }
}

/// Whether the addresses of the nodes are in ascending order, each once.
pub open spec fn in_addr_order(nodes: Seq<NodeModel>) -> bool {
    forall|i: int, j: int|
        0 <= i < j < nodes.len() ==> text_before(
            addr_text((#[trigger] nodes[i]).addr),
            addr_text((#[trigger] nodes[j]).addr),
        )
}

/// Whether `r` lists exactly the nodes of a map.
pub open spec fn lists(r: Seq<NodeModel>, m: Map<Seq<char>, NodeModel>) -> bool {
    &&& forall|i: int|
        0 <= i < r.len() ==> m.contains_key(addr_text((#[trigger] r[i]).addr)) && m[addr_text(
            r[i].addr,
        )] == r[i]
    &&& forall|k: Seq<char>| #[trigger]
        m.contains_key(k) ==> addr_text(m[k].addr) == k && exists|i: int|
            0 <= i < r.len() && #[trigger] r[i] == m[k]
}

/// Puts a node into its place in a list that is in the order of addresses, or
/// in the place of the one with the same address.
pub fn put_node(nodes: &mut Vec<DiscoveredNode>, node: DiscoveredNode)
    requires
        in_addr_order(node_views(old(nodes)@)),
    ensures
        in_addr_order(node_views(final(nodes)@)),
        forall|m: Map<Seq<char>, NodeModel>| #[trigger]
            lists(node_views(old(nodes)@), m) ==> lists(
                node_views(final(nodes)@),
                m.insert(addr_text(node@.addr), node@),
            ),
{
    let key = node.addr.text();
    let n: usize = nodes.len();
    let ghost old_views = node_views(nodes@);
    let mut i: usize = 0;
    while i < n && before(nodes[i].addr.text().as_str(), key.as_str())
        invariant
            i <= n == nodes@.len(),
            nodes@ == old(nodes)@,
            old_views == node_views(nodes@),
            key@ == addr_text(node@.addr),
            forall|j: int|
                0 <= j < i ==> text_before(addr_text((#[trigger] old_views[j]).addr), key@),
        decreases n - i,
    {
        assert(text_before(addr_text(old_views[i as int].addr), key@));
        i = i + 1;
    }
    let taken = i < n && same(nodes[i].addr.text().as_str(), key.as_str());
    let ghost model = node@;
    if taken {
        nodes.set(i, node);
        proof {
            let new_views = node_views(nodes@);
            assert(new_views =~= old_views.update(i as int, model));
            assert(in_addr_order(new_views)) by {
                assert forall|a: int, b: int| 0 <= a < b < new_views.len() implies text_before(
                    addr_text((#[trigger] new_views[a]).addr),
                    addr_text((#[trigger] new_views[b]).addr),
                ) by {
                    assert(text_before(addr_text(old_views[a].addr), addr_text(old_views[b].addr)));
                }
            }
            assert forall|m: Map<Seq<char>, NodeModel>| #[trigger] lists(old_views, m) implies lists(
                new_views,
                m.insert(key@, model),
            ) by {
                lemma_lists_update(old_views, m, i as int, model);
            }
        }
    } else {
        nodes.insert(i, node);
        proof {
            let new_views = node_views(nodes@);
            assert(new_views =~= old_views.insert(i as int, model));
            if i < n {
                lemma_text_before_total(addr_text(old_views[i as int].addr), key@);
            }
            assert forall|j: int| i <= j < n implies text_before(
                key@,
                addr_text((#[trigger] old_views[j]).addr),
            ) by {
                if j > i {
                    assert(text_before(
                        addr_text(old_views[i as int].addr),
                        addr_text(old_views[j].addr),
                    ));
                    lemma_text_before_trans(
                        key@,
                        addr_text(old_views[i as int].addr),
                        addr_text(old_views[j].addr),
                    );
                }
            }
            assert(in_addr_order(new_views)) by {
                assert forall|a: int, b: int| 0 <= a < b < new_views.len() implies text_before(
                    addr_text((#[trigger] new_views[a]).addr),
                    addr_text((#[trigger] new_views[b]).addr),
                ) by {
                    let x = if a < i {
                        a
                    } else {
                        a - 1
                    };
                    let y = if b < i {
                        b
                    } else {
                        b - 1
                    };
                    if a != i {
                        assert(new_views[a] == old_views[x]);
                    }
                    if b != i {
                        assert(new_views[b] == old_views[y]);
                    }
                    if a != i && b != i {
                        assert(text_before(
                            addr_text(old_views[x].addr),
                            addr_text(old_views[y].addr),
                        ));
                    }
                }
            }
            assert forall|m: Map<Seq<char>, NodeModel>| #[trigger] lists(old_views, m) implies lists(
                new_views,
                m.insert(key@, model),
            ) by {
                assert forall|j: int| 0 <= j < n implies addr_text((#[trigger] old_views[j]).addr)
                    != key@ by {
                    if j < i {
                        lemma_text_before_total(addr_text(old_views[j].addr), key@);
                    } else {
                        lemma_text_before_total(key@, addr_text(old_views[j].addr));
                    }
                }
                lemma_lists_insert(old_views, m, i as int, model);
            }
        }
    }
}

proof fn lemma_lists_update(r: Seq<NodeModel>, m: Map<Seq<char>, NodeModel>, i: int, node: NodeModel)
    requires
        lists(r, m),
        in_addr_order(r),
        0 <= i < r.len(),
        addr_text(r[i].addr) == addr_text(node.addr),
    ensures
        lists(r.update(i, node), m.insert(addr_text(node.addr), node)),
{
    let key = addr_text(node.addr);
    let next = r.update(i, node);
    let n = m.insert(key, node);
    assert forall|a: int| 0 <= a < next.len() implies n.contains_key(
        addr_text((#[trigger] next[a]).addr),
    ) && n[addr_text(next[a].addr)] == next[a] by {
        if a != i {
            assert(next[a] == r[a]);
            if a < i {
                assert(text_before(addr_text(r[a].addr), addr_text(r[i].addr)));
            } else {
                assert(text_before(addr_text(r[i].addr), addr_text(r[a].addr)));
            }
            lemma_text_before_total(addr_text(r[a].addr), addr_text(r[i].addr));
            lemma_text_before_total(addr_text(r[i].addr), addr_text(r[a].addr));
        }
    }
    assert forall|k: Seq<char>| #[trigger] n.contains_key(k) implies exists|a: int|
        0 <= a < next.len() && #[trigger] next[a] == n[k] by {
        if k == key {
            assert(next[i] == node);
        } else {
            assert(m.contains_key(k));
            let a = choose|a: int| 0 <= a < r.len() && #[trigger] r[a] == m[k];
            assert(a != i);
            assert(next[a] == r[a]);
        }
    }
}

proof fn lemma_lists_insert(r: Seq<NodeModel>, m: Map<Seq<char>, NodeModel>, i: int, node: NodeModel)
    requires
        lists(r, m),
        0 <= i <= r.len(),
        forall|j: int|
            0 <= j < r.len() ==> addr_text((#[trigger] r[j]).addr) != addr_text(node.addr),
    ensures
        lists(r.insert(i, node), m.insert(addr_text(node.addr), node)),
{
    let key = addr_text(node.addr);
    let next = r.insert(i, node);
    let n = m.insert(key, node);
    assert forall|a: int| 0 <= a < next.len() implies n.contains_key(
        addr_text((#[trigger] next[a]).addr),
    ) && n[addr_text(next[a].addr)] == next[a] by {
        if a < i {
            assert(next[a] == r[a]);
        } else if a > i {
            assert(next[a] == r[a - 1]);
        }
    }
    assert forall|k: Seq<char>| #[trigger] n.contains_key(k) implies exists|a: int|
        0 <= a < next.len() && #[trigger] next[a] == n[k] by {
        if k == key {
            assert(next[i] == node);
        } else {
            assert(m.contains_key(k));
            let a = choose|a: int| 0 <= a < r.len() && #[trigger] r[a] == m[k];
            if a < i {
                assert(next[a] == r[a]);
            } else {
                assert(next[a + 1] == r[a]);
            }
        }
    }
}

/// Merges nodes that were found with static ones: each address once, the static
/// node before the one that was found, in the order of addresses.
pub fn merge_discovered_nodes(
    discovered: &Vec<DiscoveredNode>,
    static_nodes: &Vec<DiscoveredNode>,
) -> (r: Vec<DiscoveredNode>)
    ensures
        in_addr_order(node_views(r@)),
        lists(
            node_views(r@),
            by_addr(
                node_views(discovered@) + node_views(static_nodes@),
                (discovered@.len() + static_nodes@.len()) as int,
            ),
        ),
{
    let ghost all = node_views(discovered@) + node_views(static_nodes@);
    let mut out: Vec<DiscoveredNode> = Vec::new();
    let mut i: usize = 0;
    while i < discovered.len()
        invariant
            i <= discovered@.len(),
            all == node_views(discovered@) + node_views(static_nodes@),
            in_addr_order(node_views(out@)),
            lists(node_views(out@), by_addr(all, i as int)),
        decreases discovered@.len() - i,
    {
        assert(all[i as int] == discovered@[i as int]@);
        put_node(&mut out, discovered[i].clone());
        i = i + 1;
    }
    let mut j: usize = 0;
    while j < static_nodes.len()
        invariant
            j <= static_nodes@.len(),
            all == node_views(discovered@) + node_views(static_nodes@),
            in_addr_order(node_views(out@)),
            lists(node_views(out@), by_addr(all, discovered@.len() + j)),
        decreases static_nodes@.len() - j,
    {
        assert(all[discovered@.len() + j] == static_nodes@[j as int]@);
        put_node(&mut out, static_nodes[j].clone());
        j = j + 1;
    }
    out
}

// ---------------------------------------------------------------------------
// Announcements

/// The port of an announcement for a protocol.
pub open spec fn announced_port(a: DiscoveryAnnounce, protocol: Seq<char>) -> u16 {
    let chosen = if lowered(trimmed(protocol)) == "tcp"@ {
        a.tcp_port
    } else {
        a.udp_port
    };
    match chosen {
        Some(p) => p,
        None => a.port,
    }
}

/// The node that an announcement speaks of. It is reached at the address that
/// the announcement came from; one of another protocol version counts for
/// nothing.
pub open spec fn announced_node(
    a: DiscoveryAnnounce,
    src: AddrView,
    protocol: Seq<char>,
    now_ms: i64,
) -> Option<NodeModel> {
    if a.version != PROTOCOL_VERSION {
        None
    } else {
        Some(
            NodeModel {
                hostname: a.hostname@,
                addr: AddrView {
                    port: announced_port(a, protocol),
                    scope_id: 0,
                    flowinfo: 0,
                    ..src
                },
                ts_ms: now_ms,
            },
        )
    }
}

/// The node that an announcement speaks of.
pub fn node_from_announce(a: &DiscoveryAnnounce, src: &NodeAddr, protocol: &str, now_ms: i64) -> (r:
    Option<DiscoveredNode>)
    ensures
        match r {
            Some(n) => announced_node(*a, src@, protocol@, now_ms) == Some(n@),
            None => announced_node(*a, src@, protocol@, now_ms) is None,
        },
{
    if a.version != PROTOCOL_VERSION {
        return None;
    }
    let p = to_lower(trim(protocol).as_str());
    let chosen = if same(p.as_str(), "tcp") {
        a.tcp_port
    } else {
        a.udp_port
    };
    let port: u16 = match chosen {
        Some(p) => p,
        None => a.port,
    };
    Some(
        DiscoveredNode {
            hostname: a.hostname.clone(),
            addr: NodeAddr {
                ip: src.ip.clone(),
                port,
                ipv4: src.ipv4,
                scope_id: 0,
                flowinfo: 0,
            },
            ts_ms: now_ms,
        },
    )
}

/// A number that fits 16 bits.
pub open spec fn small(n: Option<u64>) -> Option<u16> {
    match n {
        Some(v) => if v <= u16::MAX {
            Some(v as u16)
        } else {
            None
        },
        None => None,
    }
}

/// A number that fits 8 bits.
pub open spec fn tiny(n: Option<u64>) -> Option<u8> {
    match n {
        Some(v) => if v <= u8::MAX {
            Some(v as u8)
        } else {
            None
        },
        None => None,
    }
}

fn as_small(n: Option<u64>) -> (r: Option<u16>)
    ensures
        r == small(n),
{
    match n {
        Some(v) => if v <= 65535 {
            Some(v as u16)
        } else {
            None
        },
        None => None,
    }
}

fn as_tiny(n: Option<u64>) -> (r: Option<u8>)
    ensures
        r == tiny(n),
{
    match n {
        Some(v) => if v <= 255 {
            Some(v as u8)
        } else {
            None
        },
        None => None,
    }
}

/// The version of an announcement: the current one where no number is given.
/// A number that no version can have has no value.
pub open spec fn legacy_version(msg: Seq<char>) -> Option<u8> {
    match json_number(msg, "version"@) {
        Some(v) => tiny(Some(v)),
        None => Some(PROTOCOL_VERSION),
    }
}

/// Whether `a` is the announcement in a text of which only host name, address
/// and port must be there. A missing version is the current one.
pub open spec fn is_legacy_announce(msg: Seq<char>, a: DiscoveryAnnounce) -> bool {
    &&& json_text(msg, "hostname"@) == Some(a.hostname@)
    &&& json_text(msg, "ip"@) == Some(a.ip@)
    &&& small(json_number(msg, "port"@)) == Some(a.port)
    &&& legacy_version(msg) == Some(a.version)
    &&& a.tcp_port == small(json_number(msg, "tcp_port"@))
    &&& a.udp_port == small(json_number(msg, "udp_port"@))
    &&& a.kcp_port is None
    &&& a.ttl == small(json_number(msg, "ttl"@))
    &&& a.load == tiny(json_number(msg, "load"@))
    &&& a.degraded == json_bool(msg, "degraded"@)
}

/// Whether a text has what an older announcement must have, and no number for
/// its version that is none.
pub open spec fn has_legacy_announce(msg: Seq<char>) -> bool {
    json_text(msg, "hostname"@) is Some && json_text(msg, "ip"@) is Some && small(
        json_number(msg, "port"@),
    ) is Some && legacy_version(msg) is Some
}

/// The announcement of an older node.
pub fn parse_legacy_announce(msg: &str) -> (r: Option<DiscoveryAnnounce>)
    ensures
        match r {
            Some(a) => has_legacy_announce(msg@) && is_legacy_announce(msg@, a),
            None => !has_legacy_announce(msg@),
        },
{
    let hostname = match json_text_at(msg, "hostname") {
        Some(s) => s,
        None => {
            return None;
        },
    };
    let ip = match json_text_at(msg, "ip") {
        Some(s) => s,
        None => {
            return None;
        },
    };
    let port: u16 = match as_small(json_number_at(msg, "port")) {
        Some(p) => p,
        None => {
            return None;
        },
    };
    let version: u8 = match json_number_at(msg, "version") {
        Some(v) => match as_tiny(Some(v)) {
            Some(v) => v,
            None => {
                return None;
            },
        },
        None => PROTOCOL_VERSION,
    };
    Some(
        DiscoveryAnnounce {
            version,
            hostname,
            ip,
            port,
            tcp_port: as_small(json_number_at(msg, "tcp_port")),
            kcp_port: None,
            udp_port: as_small(json_number_at(msg, "udp_port")),
            ttl: as_small(json_number_at(msg, "ttl")),
            load: as_tiny(json_number_at(msg, "load")),
            degraded: json_bool_at(msg, "degraded"),
        },
    )
}

/// The node that a message announces. `current` is the message read as a
/// current announcement; where it is none, it may still be an older one.
pub fn parse_announce_for_protocol(
    msg: &str,
    current: Option<DiscoveryAnnounce>,
    src: &NodeAddr,
    protocol: &str,
    now_ms: i64,
) -> (r: Option<DiscoveredNode>)
    ensures
        match current {
            Some(a) => match r {
                Some(n) => announced_node(a, src@, protocol@, now_ms) == Some(n@),
                None => announced_node(a, src@, protocol@, now_ms) is None,
            },
            None => if !has_legacy_announce(msg@) || legacy_version(msg@) != Some(
                PROTOCOL_VERSION,
            ) {
                r is None
            } else {
                exists|a: DiscoveryAnnounce| #[trigger]
                    is_legacy_announce(msg@, a) && match r {
                        Some(n) => announced_node(a, src@, protocol@, now_ms) == Some(n@),
                        None => announced_node(a, src@, protocol@, now_ms) is None,
                    }
            },
        },
        current is None ==> (json_number(msg@, "version"@) matches Some(v) ==> v
            != PROTOCOL_VERSION ==> r is None),
{
    let announce = match current {
        Some(a) => a,
        None => match parse_legacy_announce(msg) {
            Some(a) => a,
            None => {
                return None;
            },
        },
    };
    node_from_announce(&announce, src, protocol, now_ms)
}

/// The addresses by which multicast goes out: the entries that are not blank,
/// without white space at their ends; or the message about the first that is no
/// IPv4 address. `faults` says of each entry why it is none.
pub open spec fn outbound_ips(raw: Seq<Seq<char>>, faults: Seq<Option<Seq<char>>>, n: int) -> Result<
    Seq<Seq<char>>,
    Seq<char>,
>
    decreases n,
{
    if n <= 0 {
        Ok(Seq::empty())
    } else {
        match outbound_ips(raw, faults, n - 1) {
            Err(e) => Err(e),
            Ok(before) => {
                let item = trimmed(raw[n - 1]);
                if item.len() == 0 {
                    Ok(before)
                } else {
                    match faults[n - 1] {
                        Some(e) => Err("invalid multicast_outbound_ip '"@ + item + "': "@ + e),
                        None => Ok(before.push(item)),
                    }
                }
            },
        }
    }
}

proof fn lemma_outbound_error_stays(
    raw: Seq<Seq<char>>,
    faults: Seq<Option<Seq<char>>>,
    i: int,
    n: int,
)
    requires
        0 <= i <= n,
        outbound_ips(raw, faults, i) is Err,
    ensures
        outbound_ips(raw, faults, n) == outbound_ips(raw, faults, i),
    decreases n,
{
    if i < n {
        lemma_outbound_error_stays(raw, faults, i, n - 1);
    }
}

/// The addresses by which multicast goes out. `faults` says of each entry why
/// it is no IPv4 address, if it is none.
pub fn parse_multicast_outbound_ips(raw: &Vec<String>, faults: &Vec<Option<String>>) -> (r: Result<
    Vec<String>,
    String,
>)
    requires
        raw@.len() == faults@.len(),
    ensures
        match r {
            Ok(ips) => outbound_ips(texts(raw@), opt_texts(faults@), raw@.len() as int) == Ok::<
                Seq<Seq<char>>,
                Seq<char>,
            >(texts(ips@)),
            Err(e) => outbound_ips(texts(raw@), opt_texts(faults@), raw@.len() as int) == Err::<
                Seq<Seq<char>>,
                Seq<char>,
            >(e@),
        },
{
    let ghost all = texts(raw@);
    let ghost why = opt_texts(faults@);
    let mut out: Vec<String> = Vec::new();
    let mut i: usize = 0;
    assert(texts(out@) =~= Seq::empty());
    while i < raw.len()
        invariant
            i <= raw@.len() == faults@.len(),
            all == texts(raw@),
            why == opt_texts(faults@),
            outbound_ips(all, why, i as int) == Ok::<Seq<Seq<char>>, Seq<char>>(texts(out@)),
        decreases raw@.len() - i,
    {
        let item = trim(raw[i].as_str());
        assert(all[i as int] == raw@[i as int]@);
        assert(why[i as int] == opt_text(faults@[i as int]));
        if !item.as_str().is_empty() {
            match &faults[i] {
                Some(e) => {
                    let mut text = "invalid multicast_outbound_ip '".to_owned();
                    text.append(item.as_str());
                    text.append("': ");
                    text.append(e.as_str());
                    proof {
                        lemma_outbound_error_stays(all, why, i + 1, raw@.len() as int);
                    }
                    return Err(text);
                },
                None => {},
            }
            assert(texts(out@.push(item)) =~= texts(out@).push(item@));
            out.push(item);
        }
        i = i + 1;
    }
    Ok(out)
}

/// The outcome of sending a query over every interface: the first failure if
/// none was sent.
pub fn query_sent(sent: usize, first_error: Option<String>, target: &NodeAddr) -> (r: Result<
    (),
    String,
>)
    ensures
        match r {
            Ok(()) => sent > 0,
            Err(e) => sent == 0 && e@ == (match first_error {
                Some(text) => text@,
                None => "send query to "@ + addr_text(target@) + " failed on every outbound IP"@,
            }),
        },
{
    if sent > 0 {
        return Ok(());
    }
    match first_error {
        Some(text) => Err(text),
        None => {
            let mut out = "send query to ".to_owned();
            out.append(target.text().as_str());
            out.append(" failed on every outbound IP");
            Err(out)
        },
    }
}

/// Merging changes nothing that is merged already: an address keeps the node
/// that was put there last.
pub proof fn law_last_node_counts(nodes: Seq<NodeModel>, n: int, i: int)
    requires
        0 <= i < n <= nodes.len(),
        forall|j: int|
            i < j < n ==> addr_text((#[trigger] nodes[j]).addr) != addr_text(nodes[i].addr),
    ensures
        by_addr(nodes, n).contains_key(addr_text(nodes[i].addr)),
        by_addr(nodes, n)[addr_text(nodes[i].addr)] == nodes[i],
    decreases n,
{
    if i < n - 1 {
        law_last_node_counts(nodes, n - 1, i);
        assert(addr_text(nodes[n - 1].addr) != addr_text(nodes[i].addr));
    }
}

} // verus!
