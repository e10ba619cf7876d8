//! Laws of the models: what a model says is what the structure holds.

use vstd::prelude::*;
use crate::client::adapter::{shown_nodes, GpuView, NodeView, ProcessView};
use crate::client::cache::{row_views, ConnectionCacheEntry};
use crate::client::discovery::{node_views, DiscoveredNode};
use crate::client::local_api::{connection_views, target_views, ConnectionInfo, RefreshTarget};
use crate::common::net::{AddrPattern, AddrPatternView, NodeAddr};
use crate::common::snapshot::{
    opt_text, GresInfo, GresProcessInfo, GresRuntimeInfo, GresStaticInfo, HostMetadata,
    RuntimeSnapshot, ServerGresSnapshot,
};
use crate::server::cache::CacheEntry;
use crate::server::collector::{GresNodeSnapshot, GresResource};
use crate::server::nvml::{NvmlDevice, NvmlProcess};
use crate::server::startup::{opt_texts, StartupError};
use crate::server::test_collector::{
    TestGresInventory, TestGresInventoryResource, TestGresRuntimeResource, TestGresRuntimeState,
};
use crate::sorted::pair_views;
use crate::text::texts;

verus! {

/// The model of a `NodeAddr` holds its fields.
pub proof fn law_model_of_node_addr(x: NodeAddr)
    ensures
        x@.ip == x.ip@,
        x@.port == x.port,
        x@.ipv4 == x.ipv4,
        x@.scope_id == x.scope_id,
        x@.flowinfo == x.flowinfo,
{
}

/// The model of a `GresProcessInfo` holds its fields.
pub proof fn law_model_of_gres_process_info(x: GresProcessInfo)
    ensures
        x@.pid == x.pid,
        x@.uid == x.uid,
        x@.command is Some <==> x.command is Some,
        x.command matches Some(s) ==> x@.command == Some(s@),
        x@.used_memory_mb == x.used_memory_mb,
{
}

/// The model of a `GresInfo` holds its fields.
pub proof fn law_model_of_gres_info(x: GresInfo)
    ensures
        x@.index == x.index,
        x@.name == x.name@,
        x@.temperature_c == x.temperature_c,
        x@.uuid is Some <==> x.uuid is Some,
        x.uuid matches Some(s) ==> x@.uuid == Some(s@),
        x@.memory == x.memory,
        x@.utilization == x.utilization,
        x@.processes.len() == x.processes@.len(),
        forall|i: int|
            0 <= i < x.processes@.len() ==> #[trigger] x@.processes[i] == x.processes@[i]@,
{
}

/// The model of a `ServerGresSnapshot` holds its fields.
pub proof fn law_model_of_server_gres_snapshot(x: ServerGresSnapshot)
    ensures
        x@.hostname == x.hostname@,
        x@.driver_version is Some <==> x.driver_version is Some,
        x.driver_version matches Some(s) ==> x@.driver_version == Some(s@),
        x@.gres.len() == x.gres@.len(),
        forall|i: int| 0 <= i < x.gres@.len() ==> #[trigger] x@.gres[i] == x.gres@[i]@,
{
}

/// The model of a `GresStaticInfo` holds its fields.
pub proof fn law_model_of_gres_static_info(x: GresStaticInfo)
    ensures
        x@.index == x.index,
        x@.name == x.name@,
        x@.uuid is Some <==> x.uuid is Some,
        x.uuid matches Some(s) ==> x@.uuid == Some(s@),
        x@.memory_total_mb == x.memory_total_mb,
{
}

/// The model of a `HostMetadata` holds its fields.
pub proof fn law_model_of_host_metadata(x: HostMetadata)
    ensures
        x@.hostname == x.hostname@,
        x@.driver_version is Some <==> x.driver_version is Some,
        x.driver_version matches Some(s) ==> x@.driver_version == Some(s@),
        x@.gres.len() == x.gres@.len(),
        forall|i: int| 0 <= i < x.gres@.len() ==> #[trigger] x@.gres[i] == x.gres@[i]@,
{
}

/// The model of a `GresRuntimeInfo` holds its fields.
pub proof fn law_model_of_gres_runtime_info(x: GresRuntimeInfo)
    ensures
        x@.index == x.index,
        x@.temperature_c == x.temperature_c,
        x@.memory_used_mb == x.memory_used_mb,
        x@.utilization == x.utilization,
        x@.processes == x.processes@,
{
}

/// The model of a `RuntimeSnapshot` holds its fields.
pub proof fn law_model_of_runtime_snapshot(x: RuntimeSnapshot)
    ensures
        x@.metadata_hash == x.metadata_hash,
        x@.gres.len() == x.gres@.len(),
        forall|i: int| 0 <= i < x.gres@.len() ==> #[trigger] x@.gres[i] == x.gres@[i]@,
{
}

/// The model of a `NvmlProcess` holds its fields.
pub proof fn law_model_of_nvml_process(x: NvmlProcess)
    ensures
        x@.pid == x.pid,
        x@.uid == x.uid,
        x@.command is Some <==> x.command is Some,
        x.command matches Some(s) ==> x@.command == Some(s@),
        x@.used_bytes == x.used_bytes,
{
}

/// The model of a `NvmlDevice` holds its fields.
pub proof fn law_model_of_nvml_device(x: NvmlDevice)
    ensures
        x@.name is Some <==> x.name is Some,
        x.name matches Some(s) ==> x@.name == Some(s@),
        x@.uuid is Some <==> x.uuid is Some,
        x.uuid matches Some(s) ==> x@.uuid == Some(s@),
        x@.temperature_c == x.temperature_c,
        x@.memory_used_bytes == x.memory_used_bytes,
        x@.memory_total_bytes == x.memory_total_bytes,
        x@.gpu_percent == x.gpu_percent,
        x@.memory_percent == x.memory_percent,
        x@.processes.len() == x.processes@.len(),
        forall|i: int|
            0 <= i < x.processes@.len() ==> #[trigger] x@.processes[i] == x.processes@[i]@,
{
}

/// The model of a `GresResource` holds its fields.
pub proof fn law_model_of_gres_resource(x: GresResource)
    ensures
        x@.kind == x.kind,
        x@.index == x.index,
        x@.name == x.name@,
        x@.uuid is Some <==> x.uuid is Some,
        x.uuid matches Some(s) ==> x@.uuid == Some(s@),
        x@.temperature_c == x.temperature_c,
        x@.memory_used_mb == x.memory_used_mb,
        x@.memory_total_mb == x.memory_total_mb,
        x@.utilization_gres_percent == x.utilization_gres_percent,
        x@.utilization_memory_percent == x.utilization_memory_percent,
        x@.processes == x.processes@,
{
}

/// The model of a `GresNodeSnapshot` holds its fields.
pub proof fn law_model_of_gres_node_snapshot(x: GresNodeSnapshot)
    ensures
        x@.hostname == x.hostname@,
        x@.driver_version is Some <==> x.driver_version is Some,
        x.driver_version matches Some(s) ==> x@.driver_version == Some(s@),
        x@.resources.len() == x.resources@.len(),
        forall|i: int|
            0 <= i < x.resources@.len() ==> #[trigger] x@.resources[i] == x.resources@[i]@,
{
}

/// The model of a `TestGresInventoryResource` holds its fields.
pub proof fn law_model_of_test_gres_inventory_resource(x: TestGresInventoryResource)
    ensures
        x@.index == x.index,
        x@.name == x.name@,
        x@.uuid is Some <==> x.uuid is Some,
        x.uuid matches Some(s) ==> x@.uuid == Some(s@),
        x@.memory_total_mb == x.memory_total_mb,
{
}

/// The model of a `TestGresInventory` holds its fields.
pub proof fn law_model_of_test_gres_inventory(x: TestGresInventory)
    ensures
        x@.hostname == x.hostname@,
        x@.driver_version is Some <==> x.driver_version is Some,
        x.driver_version matches Some(s) ==> x@.driver_version == Some(s@),
        x@.gres.len() == x.gres@.len(),
        forall|i: int| 0 <= i < x.gres@.len() ==> #[trigger] x@.gres[i] == x.gres@[i]@,
{
}

/// The model of a `TestGresRuntimeResource` holds its fields.
pub proof fn law_model_of_test_gres_runtime_resource(x: TestGresRuntimeResource)
    ensures
        x@.index == x.index,
        x@.temperature_c == x.temperature_c,
        x@.memory_used_mb == x.memory_used_mb,
        x@.utilization_gres_percent == x.utilization_gres_percent,
        x@.utilization_memory_percent == x.utilization_memory_percent,
        x@.processes == x.processes@,
{
}

/// The model of a `CacheEntry` holds its fields.
pub proof fn law_model_of_cache_entry(x: CacheEntry)
    ensures
        x@.timestamp_ms == x.timestamp_ms,
        x@.payload == x.payload@,
        x@.snapshot == x.snapshot@,
        x@.collected_at_ns == x.collected_at_ns,
{
}

/// The model of a `ConnectionCacheEntry` holds its fields.
pub proof fn law_model_of_connection_cache_entry(x: ConnectionCacheEntry)
    ensures
        x@.connection_id == x.connection_id@,
        x@.hostname == x.hostname@,
        x@.num == x.num,
        x@.server_gres == x.server_gres@,
        x@.record_timestamp == x.record_timestamp,
        x@.addr == x.addr@,
        x@.last_snapshot == match x.last_snapshot { Some(s) => Some(s@), None => None, },
        x@.last_error is Some <==> x.last_error is Some,
        x.last_error matches Some(s) ==> x@.last_error == Some(s@),
        x@.last_query_latency_us == x.last_query_latency_us,
{
}

/// The model of a `DiscoveredNode` holds its fields.
pub proof fn law_model_of_discovered_node(x: DiscoveredNode)
    ensures
        x@.hostname == x.hostname@,
        x@.addr == x.addr@,
        x@.ts_ms == x.ts_ms,
{
}

/// The model of a `ConnectionInfo` holds its fields.
pub proof fn law_model_of_connection_info(x: ConnectionInfo)
    ensures
        x@.addr == x.addr@,
        x@.hostname == x.hostname@,
        x@.gres_num == x.gres_num,
{
}

/// The model of a `RefreshTarget` holds its fields.
pub proof fn law_model_of_refresh_target(x: RefreshTarget)
    ensures
        x@.connection_id == x.connection_id@,
        x@.hostname == x.hostname@,
        x@.addr == x.addr@,
        x@.had_snapshot == x.had_snapshot,
{
}

/// The model of a `ProcessView` holds its fields.
pub proof fn law_model_of_process_view(x: ProcessView)
    ensures
        x@.uid == x.uid,
        x@.username == x.username@,
        x@.pid == x.pid,
        x@.command is Some <==> x.command is Some,
        x.command matches Some(s) ==> x@.command == Some(s@),
        x@.used_memory_mb == x.used_memory_mb,
{
}

/// The model of a `GpuView` holds its fields.
pub proof fn law_model_of_gpu_view(x: GpuView)
    ensures
        x@.index == x.index,
        x@.name == x.name@,
        x@.temperature_c == x.temperature_c,
        x@.util == x.util,
        x@.mem_used_mb == x.mem_used_mb,
        x@.mem_total_mb == x.mem_total_mb,
        x@.processes is Some <==> x.processes is Some,
        x.processes is Some ==> x@.processes->0.len() == x.processes->0@.len(),
        x.processes is Some ==> forall|i: int|
            0 <= i < x.processes->0@.len() ==> #[trigger] x@.processes->0[i]
                == x.processes->0@[i]@,
{
}

/// The model of a `NodeView` holds its fields.
pub proof fn law_model_of_node_view(x: NodeView)
    ensures
        x@.connection_id == x.connection_id@,
        x@.hostname == x.hostname@,
        x@.addr == x.addr@,
        x@.timestamp_ms == x.timestamp_ms,
        x@.driver_version is Some <==> x.driver_version is Some,
        x.driver_version matches Some(s) ==> x@.driver_version == Some(s@),
        x@.num == x.num,
        x@.stale == x.stale,
        x@.error is Some <==> x.error is Some,
        x.error matches Some(s) ==> x@.error == Some(s@),
        x@.delay_us == x.delay_us,
        x@.gpus.len() == x.gpus@.len(),
        forall|i: int| 0 <= i < x.gpus@.len() ==> #[trigger] x@.gpus[i] == x.gpus@[i]@,
{
}

/// The model of a `StartupError` holds its fields.
pub proof fn law_model_of_startup_error(x: StartupError)
    ensures
        x@.code == x.code,
        x@.message == x.message@,
        x@.hint is Some <==> x.hint is Some,
        x.hint matches Some(s) ==> x@.hint == Some(s@),
{
}

/// The model of a runtime state holds its resources, in order.
pub proof fn law_model_of_test_gres_runtime_state(x: TestGresRuntimeState)
    ensures
        x@.len() == x.gres@.len(),
        forall|i: int| 0 <= i < x.gres@.len() ==> #[trigger] x@[i] == x.gres@[i]@,
{
}

/// The model of a pattern is the address that it writes, if it writes one.
pub proof fn law_model_of_addr_pattern(ip: String, addr: NodeAddr)
    ensures
        AddrPattern::NotAnAddress@ == AddrPatternView::NotAnAddress,
        AddrPattern::Ip(ip)@ == AddrPatternView::Ip(ip@),
        AddrPattern::Socket(addr)@ == AddrPatternView::Socket(addr@),
{
}

/// The model of a list holds the models of its items, in order.
pub proof fn law_models_of_lists(
    strings: Seq<String>,
    nodes: Seq<NodeView>,
    found: Seq<DiscoveredNode>,
    targets: Seq<RefreshTarget>,
    pairs: Seq<(String, String)>,
    datagrams: Seq<Vec<u8>>,
    options: Seq<Option<String>>,
    i: int,
)
    requires
        0 <= i,
    ensures
        texts(strings).len() == strings.len(),
        i < strings.len() ==> texts(strings)[i] == strings[i]@,
        shown_nodes(nodes).len() == nodes.len(),
        i < nodes.len() ==> shown_nodes(nodes)[i] == nodes[i]@,
        node_views(found).len() == found.len(),
        i < found.len() ==> node_views(found)[i] == found[i]@,
        target_views(targets).len() == targets.len(),
        i < targets.len() ==> target_views(targets)[i] == targets[i]@,
        pair_views(pairs).len() == pairs.len(),
        i < pairs.len() ==> pair_views(pairs)[i] == (pairs[i].0@, pairs[i].1@),
        crate::client::udp_client::all_bytes(datagrams).len() == datagrams.len(),
        i < datagrams.len() ==> crate::client::udp_client::all_bytes(datagrams)[i] == datagrams[i]@,
        crate::server::udp_transport::all_bytes(datagrams) == crate::client::udp_client::all_bytes(
            datagrams,
        ),
        opt_texts(options).len() == options.len(),
        i < options.len() ==> opt_texts(options)[i] == opt_text(options[i]),
{
    assert(crate::server::udp_transport::all_bytes(datagrams)
        =~= crate::client::udp_client::all_bytes(datagrams));
}

/// The model of a map holds the models of its values, under the same keys.
pub proof fn law_models_of_maps(
    rows: Map<Seq<char>, ConnectionCacheEntry>,
    connections: Map<Seq<char>, ConnectionInfo>,
    key: Seq<char>,
)
    ensures
        row_views(rows).contains_key(key) <==> rows.contains_key(key),
        rows.contains_key(key) ==> row_views(rows)[key] == rows[key]@,
        connection_views(connections).contains_key(key) <==> connections.contains_key(key),
        connections.contains_key(key) ==> connection_views(connections)[key] == connections[key]@,
{
}

} // verus!
