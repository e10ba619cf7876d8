//! Laws of calls: what the functions of the library give for what they are given.

use vstd::prelude::*;
use std::collections::HashMap;
use crate::bytes::be_value;
use crate::cli::args::{parse_args, CliOptions, Seconds};
use crate::cli::backend::{
    build_query_command, decode_response, latency_display_from_options, GresView, QueryResponse,
};
use crate::cli::render::{
    owner_name, process_text, process_wanted, render_gres_row, render_table, row_text, Lookups,
    RenderOptions,
};
use crate::client::adapter::{
    build_query_response, gpu_views_from_snapshot, node_view_from_entry, user_name,
    username_from_passwd, GpuView, NodeView, QueryRequest, QueryResponse as ShownResponse,
};
use crate::client::cache::{CacheMap, ConnectionCacheEntry};
use crate::client::config::kcp_enabled_requested;
use crate::client::discovery::{query_sent, static_node_items};
use crate::client::filter::NodeFilter;
use crate::client::kcp_client::{changed_gres_num, first_conv};
use crate::client::local_api::{
    is_listing, uds_path_from_config_or_env, wants_heartbeat, CommandStep, ConnectOutcome,
    LocalApiState,
};
use crate::client::udp_client::UdpReceiver;
use crate::common::config::{
    default_cache_ttl_ms, default_collector_interval_ms, default_connection_idle_timeout_secs,
    default_discover_wait_secs, default_heartbeat_interval_secs, default_latency_display,
    default_log_max_size, default_max_connections, default_multicast_retry_limit, default_protocol,
    default_tcp_port, default_udp_mtu, default_udp_port,
};
use crate::common::error::ErrorCode;
use crate::common::frame::{
    decode_frame, encode_frame, FrameDecodeError, FrameHeader, FrameHeaderError, FrameType,
};
use crate::common::message::{
    check_version, validate_protocol_version, DiscoveryAnnounce, HandshakeInfo, HandshakeRequest,
    QueryResponse as WireQueryResponse, VersionCheck,
};
use crate::common::net::{AddrPattern, NodeAddr};
use crate::common::payload::{
    decode_payload, encode_payload, payload_len_from_archived_len, stamped, PayloadLenError,
};
use crate::common::snapshot::{opt_text, ServerGresSnapshot};
use crate::common::udp::{effective_udp_payload_capacity, parse_mtu, route_device};
use crate::laws::args::{law_each_option_sets_its_own_field, law_no_arguments, read};
use crate::laws::filter::{bracketed, is_numbered, law_range_filter, longer};
use crate::laws::nvml::is_mib_of;
use crate::laws::render::{
    law_every_process_stands_in_the_row, law_every_row_stands_in_the_table, law_process_text_tells,
};
use crate::laws::shown::{fits_or_largest, law_row_is_shown, law_shown_gpus_hold_what_was_reported};
use crate::server::collector::{DegradedCollector, GresCollector, GresNodeSnapshot};
use crate::server::nvml::{
    command_from_comm, device_limit, library_path, snapshot_from_devices, NvmlDevice,
};
use crate::server::session::{
    accept_session, kcp_step, payload_len_behind, step_after_frame, tcp_step, KcpRead, SessionStep,
    SessionStepView,
};
use crate::server::startup::{
    after_announce, announce_ips, collector_kind, config_path, discovery_announce, first_announce,
    log_size, multicast_route_hint, own_ip, protocol_fault, refresh_pause_ns, AnnounceNext,
    CollectorKind, FaultView, StartupError,
};
use crate::server::test_collector::{
    reading_from_files, runtime_at, test_node_reading, TestGresCollector, TestGresInventory,
    TestGresRuntimeState,
};
use crate::server::transport::{Request, TransportError};
use crate::text::{
    begins, decimal, is_space, lowered, occurs, texts, trimmed, unsigned_value, words,
};

verus! {

// ---------------------------------------------------------------------------
// Readings

/// The snapshot that is made of the devices of a node carries what they report: for each
/// device its number, name, temperature and identifier, its memory in whole MiB, and its
/// utilizations as they are up to 100 and as 100 above.
pub proof fn law_snapshot_from_devices(
    hostname: &str,
    driver_version: &Option<String>,
    devices: &Vec<NvmlDevice>,
    r: ServerGresSnapshot,
    i: int,
)
    requires
        call_ensures(snapshot_from_devices, (hostname, driver_version, devices), r),
        0 <= i < devices@.len() <= 255,
    ensures
        r.hostname@ == hostname@,
        opt_text(r.driver_version) == opt_text(*driver_version),
        r.gres@.len() == devices@.len(),
        r.gres@[i].index as int == i,
        r.gres@[i].temperature_c == devices@[i].temperature_c,
        opt_text(r.gres@[i].uuid) == opt_text(devices@[i].uuid),
        devices@[i].name matches Some(name) ==> r.gres@[i].name@ == name@,
        devices@[i].gpu_percent <= 100 ==> r.gres@[i].utilization.gres_percent as int
            == devices@[i].gpu_percent,
        devices@[i].gpu_percent > 100 ==> r.gres@[i].utilization.gres_percent == 100,
        devices@[i].memory_percent <= 100 ==> r.gres@[i].utilization.memory_percent as int
            == devices@[i].memory_percent,
        devices@[i].memory_percent > 100 ==> r.gres@[i].utilization.memory_percent == 100,
        is_mib_of(r.gres@[i].memory.used_mb, devices@[i].memory_used_bytes),
        is_mib_of(r.gres@[i].memory.total_mb, devices@[i].memory_total_bytes),
{
    let views = devices@.map_values(|d: NvmlDevice| d@);
    assert(r@ == crate::server::nvml::nvml_snapshot(hostname@, opt_text(*driver_version), views));
    crate::laws::nvml::law_devices_are_as_reported(hostname@, opt_text(*driver_version), views, i);
    crate::laws::nvml::law_utilization_is_as_reported(
        hostname@,
        opt_text(*driver_version),
        views,
        i,
    );
    assert(views[i] == devices@[i]@);
    assert(r@.gres[i] == r.gres@[i]@);
}

/// At most 255 devices are read.
pub proof fn law_device_limit(count: u32, r: u32)
    requires
        call_ensures(device_limit, (count,), r),
    ensures
        count <= 255 ==> r == count,
        count > 255 ==> r == 255,
{
}

/// The command of a process, and the path of the library, without white space around them;
/// what is blank is none.
pub proof fn law_command_and_path(
    text: &str,
    configured: Option<&str>,
    c: Option<String>,
    p: Option<String>,
)
    requires
        call_ensures(command_from_comm, (text,), c),
        call_ensures(library_path, (configured,), p),
    ensures
        c is Some <==> trimmed(text@).len() > 0,
        c matches Some(s) ==> s@ == trimmed(text@),
        p is Some <==> configured is Some && trimmed(configured->0@).len() > 0,
        p matches Some(s) ==> s@ == trimmed(configured->0@),
{
}

// ---------------------------------------------------------------------------
// What is shown

/// The resources that are shown of a snapshot agree with it field by field, and so do
/// their processes.
pub proof fn law_gpu_views_from_snapshot(
    snapshot: &ServerGresSnapshot,
    names: &HashMap<u32, String>,
    r: Vec<GpuView>,
    i: int,
)
    requires
        call_ensures(gpu_views_from_snapshot, (snapshot, names), r),
        0 <= i < snapshot.gres@.len(),
    ensures
        r@.len() == snapshot.gres@.len(),
        r@[i].index == snapshot.gres@[i].index,
        r@[i].name@ == snapshot.gres@[i].name@,
        r@[i].temperature_c == snapshot.gres@[i].temperature_c,
        snapshot.gres@[i].utilization.gres_percent <= 100 ==> r@[i].util
            == snapshot.gres@[i].utilization.gres_percent,
        snapshot.gres@[i].utilization.gres_percent > 100 ==> r@[i].util == 100,
        fits_or_largest(r@[i].mem_used_mb, snapshot.gres@[i].memory.used_mb),
        fits_or_largest(r@[i].mem_total_mb, snapshot.gres@[i].memory.total_mb),
        r@[i].processes is Some,
        r@[i].processes->0@.len() == snapshot.gres@[i].processes@.len(),
        forall|k: int|
            0 <= k < snapshot.gres@[i].processes@.len() ==> {
                let p = #[trigger] r@[i].processes->0@[k];
                let q = snapshot.gres@[i].processes@[k];
                &&& p.pid == q.pid
                &&& p.uid == q.uid
                &&& opt_text(p.command) == opt_text(q.command)
                &&& p.username@ == user_name(q.uid, names@)
                &&& fits_or_largest(p.used_memory_mb, q.used_memory_mb)
            },
{
    law_shown_gpus_hold_what_was_reported(*snapshot, names@, r@, i);
    crate::laws::shown::law_gpus_are_shown_as_reported(snapshot@, names@);
    let views = crate::client::adapter::shown_gpus(r@);
    assert(views[i] == r@[i]@);
    assert(snapshot@.gres[i] == snapshot.gres@[i]@);
    assert(crate::laws::shown::shows_gpu(views[i], snapshot@.gres[i], names@));
}

/// A row of the backend is shown under its own id, and as stale if and only if it holds no
/// snapshot.
pub proof fn law_node_view_from_entry(
    entry: &ConnectionCacheEntry,
    names: &HashMap<u32, String>,
    now_ms: i64,
    r: NodeView,
)
    requires
        call_ensures(node_view_from_entry, (entry, names, now_ms), r),
    ensures
        r.connection_id@ == entry.connection_id@,
        r.delay_us == entry.last_query_latency_us,
        r.stale <==> entry.last_snapshot is None,
        entry.last_snapshot matches Some(s) ==> r.hostname@ == s.hostname@ && r.gpus@.len()
            == s.gres@.len() && opt_text(r.driver_version) == opt_text(s.driver_version)
            && r.timestamp_ms == entry.record_timestamp && r.error is None,
        entry.last_snapshot is None ==> r.hostname@ == entry.hostname@ && r.num == entry.num
            && opt_text(r.error) == opt_text(entry.last_error),
{
    law_row_is_shown(entry@, names@, now_ms);
    assert(r@.gpus.len() == r.gpus@.len());
    if let Some(s) = entry.last_snapshot {
        assert(entry@.last_snapshot == Some(s@));
        assert(s@.gres.len() == s.gres@.len());
    }
}

/// The name in a line of the user database is what stands before the first colon.
pub proof fn law_username_from_passwd(
    line: &str,
    name: Seq<char>,
    rest: Seq<char>,
    r: Option<String>,
)
    requires
        call_ensures(username_from_passwd, (line,), r),
        line@ == name + seq![':'] + rest,
        !name.contains(':'),
    ensures
        r is Some <==> trimmed(name).len() > 0,
        r matches Some(s) ==> s@ == trimmed(name),
{
    crate::laws::text::law_split_off(name, ':', rest);
}

/// An answer says how many nodes it shows, when it was made, and whether it is empty.
pub proof fn law_answer_as_a_whole(
    rows: &CacheMap,
    filter: &NodeFilter,
    user: Option<&str>,
    names: &HashMap<u32, String>,
    now_ms: i64,
    r: ShownResponse,
)
    requires
        call_ensures(build_query_response, (rows, filter, user, names, now_ms), r),
    ensures
        r.meta.node_count == r.nodes@.len(),
        r.meta.timestamp_ms == now_ms,
        r.meta.errors@.len() == 0,
        r.nodes@.len() == 0 ==> r.meta.status@ == "empty"@,
        r.nodes@.len() > 0 ==> r.meta.status@ == "ok"@,
{
}

// ---------------------------------------------------------------------------
// Filters

/// A filter text that is a single range gives a filter with one pattern for each number of
/// the range, in ascending order, padded with zeros to the wider bound.
pub proof fn law_filter_of_a_range<F: Fn(&str) -> AddrPattern>(
    raw: &str,
    parse_addr: F,
    r: NodeFilter,
    prefix: Seq<char>,
    start: Seq<char>,
    end: Seq<char>,
    suffix: Seq<char>,
    a: nat,
    b: nat,
)
    requires
        call_ensures(NodeFilter::parse::<F>, (Some(raw), parse_addr), r),
        raw@ == bracketed(prefix, start + seq!['-'] + end, suffix),
        !prefix.contains('[') && !prefix.contains(','),
        !suffix.contains(','),
        prefix.len() > 0 ==> !is_space(prefix[0]),
        suffix.len() > 0 ==> !is_space(suffix.last()),
        unsigned_value(start, u32::MAX as nat) == Some(a),
        unsigned_value(end, u32::MAX as nat) == Some(b),
        a <= b,
    ensures
        r@.patterns.len() == b - a + 1,
        forall|i: int|
            0 <= i <= b - a ==> is_numbered(
                #[trigger] r@.patterns[i],
                prefix,
                (a + i) as nat,
                longer(start.len(), end.len()),
                suffix,
            ),
{
    law_range_filter(prefix, start, end, suffix, a, b);
}

// ---------------------------------------------------------------------------
// The table

/// The row of a resource shows every process that is wanted, with its memory, and with its
/// owner, its command and its pid as far as they are asked for.
pub proof fn law_render_gres_row(
    gres: &GresView,
    user: &Option<String>,
    name_width: usize,
    opts: &RenderOptions,
    names: &HashMap<u32, String>,
    r: String,
    i: int,
)
    requires
        call_ensures(render_gres_row, (gres, user, name_width, opts, names), r),
        gres.processes is Some,
        0 <= i < gres.processes->0@.len(),
        process_wanted(gres.processes->0@[i], opt_text(*user), names@),
        !opts.no_processes,
    ensures
        ({
            let p = gres.processes->0@[i];
            let text = process_text(p, *opts, names@);
            &&& occurs(r@, seq![' '] + text)
            &&& occurs(text, decimal(p.used_memory_mb as nat) + seq!['M'])
            &&& !opts.show_cmd || opts.show_user ==> occurs(text, owner_name(p, names@))
            &&& opts.show_pid ==> occurs(text, seq!['/'] + decimal(p.pid as nat))
        }),
{
    law_every_process_stands_in_the_row(
        *gres,
        opt_text(*user),
        name_width as nat,
        *opts,
        names@,
        i,
    );
    law_process_text_tells(gres.processes->0@[i], *opts, names@);
}

/// The table shows the row of every resource of every node, where no user is asked for.
pub proof fn law_render_table(
    resp: &QueryResponse,
    opts: &RenderOptions,
    lookups: &Lookups,
    r: String,
    i: int,
    k: int,
)
    requires
        call_ensures(render_table, (resp, None::<&str>, opts, lookups), r),
        0 <= i < resp.nodes@.len(),
        0 <= k < resp.nodes@[i].gres@.len(),
    ensures
        exists|width: nat|
            occurs(
                r@,
                #[trigger] row_text(
                    resp.nodes@[i].gres@[k],
                    None,
                    width,
                    *opts,
                    lookups.names@,
                ),
            ),
{
    law_every_row_stands_in_the_table(*resp, None, *opts, *lookups, i, k);
}

/// How an answer is rendered is what the command line says. Colours are used where they
/// are forced or, unless they are forbidden, on a terminal; delays are shown as the command
/// line says, else as the configuration says, else they are.
pub proof fn law_options_of_the_table(
    opts: &CliOptions,
    terminal: bool,
    configured: Option<bool>,
    r: RenderOptions,
    shown: bool,
)
    requires
        call_ensures(RenderOptions::from_cli, (opts, terminal, configured), r),
        call_ensures(latency_display_from_options, (opts, configured), shown),
    ensures
        opts.force_color ==> r.color,
        !opts.force_color && opts.no_color ==> !r.color,
        !opts.force_color && !opts.no_color ==> r.color == terminal,
        r.show_header == opts.show_header,
        r.no_processes == opts.no_processes,
        r.show_cmd == opts.show_cmd,
        r.show_user == opts.show_user,
        r.show_pid == opts.show_pid,
        r.gresname_width == opts.gresname_width,
        r.latency_display == shown,
        opts.latency_display is Some ==> shown == opts.latency_display->0,
        opts.latency_display is None && configured is Some ==> shown == configured->0,
        opts.latency_display is None && configured is None ==> shown,
{
}

// ---------------------------------------------------------------------------
// The command line

/// A single option sets its own field and leaves the others as they are without options.
pub proof fn law_parse_single_option(
    args: Vec<String>,
    seconds: Vec<Seconds>,
    r: Result<CliOptions, String>,
    o: CliOptions,
)
    requires
        call_ensures(parse_args, (args, seconds), r),
        args@.len() == 1,
        seconds@.len() == 1,
        o == crate::cli::args::default_options(),
    ensures
        ({
            let arg = args@[0]@;
            &&& arg == "-c"@ || arg == "--show-cmd"@ ==> r == Ok::<CliOptions, String>(
                CliOptions { show_cmd: true, ..o },
            )
            &&& arg == "-u"@ || arg == "--show-user"@ ==> r == Ok::<CliOptions, String>(
                CliOptions { show_user: true, ..o },
            )
            &&& arg == "-p"@ || arg == "--show-pid"@ ==> r == Ok::<CliOptions, String>(
                CliOptions { show_pid: true, ..o },
            )
            &&& arg == "-a"@ || arg == "--show-all"@ ==> r == Ok::<CliOptions, String>(
                CliOptions { show_cmd: true, show_user: true, show_pid: true, ..o },
            )
            &&& arg == "--json"@ ==> r == Ok::<CliOptions, String>(CliOptions { json: true, ..o })
            &&& arg == "--color"@ || arg == "--force-color"@ ==> r == Ok::<CliOptions, String>(
                CliOptions { force_color: true, ..o },
            )
            &&& arg == "--no-color"@ ==> r == Ok::<CliOptions, String>(
                CliOptions { no_color: true, ..o },
            )
            &&& arg == "--no-header"@ ==> r == Ok::<CliOptions, String>(
                CliOptions { show_header: false, ..o },
            )
            &&& arg == "--no-processes"@ ==> r == Ok::<CliOptions, String>(
                CliOptions { no_processes: true, ..o },
            )
            &&& arg == "--no-latency"@ || arg == "--hide-latency"@ ==> r == Ok::<
                CliOptions,
                String,
            >(CliOptions { latency_display: Some(false), ..o })
            &&& arg == "-i"@ || arg == "--interval"@ || arg == "-w"@ || arg == "--watch"@ ==> r
                == Ok::<CliOptions, String>(CliOptions { watch: true, ..o })
        }),
{
    law_no_arguments();
    let none = Seq::<String>::empty();
    let nothing = Seq::<Seconds>::empty();
    law_each_option_sets_its_own_field(none, nothing, o, args@[0], seconds@[0]);
    assert(none + seq![args@[0]] =~= args@);
    assert(nothing + seq![seconds@[0]] =~= seconds@);
    crate::laws::args::law_options_that_exclude_each_other(args@, seconds@);
}

/// The command that asks the backend holds the two filters of the command line.
pub proof fn law_query_command(opts: &CliOptions, r: String)
    requires
        call_ensures(build_query_command, (opts,), r),
    ensures
        r@ == "QUERY {\"filter\":"@ + crate::cli::backend::json_opt_text(opt_text(opts.node_filter))
            + ",\"user\":"@ + crate::cli::backend::json_opt_text(opt_text(opts.user_filter))
            + "}\n"@,
{
}

// ---------------------------------------------------------------------------
// Versions and sizes

/// Version 1 is spoken, and no other.
pub proof fn law_versions(version: u8, c: VersionCheck, r: Result<(), ErrorCode>)
    requires
        call_ensures(check_version, (version,), c),
        call_ensures(validate_protocol_version, (version,), r),
    ensures
        version == 1 ==> c == VersionCheck::Matched && r is Ok,
        version != 1 ==> c == (VersionCheck::Mismatch { expected: 1, got: version }) && r == Err::<
            (),
            ErrorCode,
        >(ErrorCode::ProtocolVersionMismatch),
{
}

/// A payload that was stamped is taken apart into the time and the archive again.
pub proof fn law_stamped_payload(
    timestamp_ms: i64,
    archived: &[u8],
    payload: &[u8],
    written: Result<Vec<u8>, PayloadLenError>,
    taken: Option<(i64, &[u8])>,
)
    requires
        call_ensures(encode_payload, (timestamp_ms, archived), written),
        call_ensures(decode_payload, (payload,), taken),
    ensures
        written is Ok <==> archived@.len() + 8 <= 65535,
        written matches Ok(bytes) ==> bytes@ == payload@ ==> (taken matches Some((t, rest)) && t
            == timestamp_ms && rest@ == archived@),
        payload@.len() < 8 <==> taken is None,
{
    crate::common::payload::law_stamp_reads_back(timestamp_ms, archived@);
    crate::laws::wire::law_stamp_stands_first(timestamp_ms, archived@);
}

/// A length of up to 65535 is announced as it is, and a larger one is refused.
pub proof fn law_announced_length(len: usize, r: Result<u16, PayloadLenError>)
    requires
        call_ensures(payload_len_from_archived_len, (len,), r),
    ensures
        len <= 65535 ==> (r matches Ok(n) && n as usize == len),
        len > 65535 ==> r == Err::<u16, _>(PayloadLenError::TooLarge { len, max: 65535 }),
{
}

/// The room for a chunk comes from the configured size of packets, else from the one that
/// was found, else from 1200.
pub proof fn law_room(ipv4: bool, configured: u16, found: Option<usize>, r: usize)
    requires
        call_ensures(effective_udp_payload_capacity, (ipv4, configured, found), r),
    ensures
        ({
            let size: int = if configured > 0 {
                configured as int
            } else if found is Some {
                found->0 as int
            } else {
                1200
            };
            let headers: int = if ipv4 {
                60
            } else {
                80
            };
            &&& size - headers >= 256 ==> r == size - headers
            &&& size - headers < 256 ==> r == 256
        }),
{
}

/// The device of a route is the word behind `dev`; the size of packets is a number with
/// white space around it.
pub proof fn law_route_and_mtu(
    output: &str,
    raw: &str,
    d: Option<String>,
    m: Option<usize>,
    before: Seq<Seq<char>>,
    word: Seq<char>,
    rest: Seq<Seq<char>>,
)
    requires
        call_ensures(route_device, (output,), d),
        call_ensures(parse_mtu, (raw,), m),
        !before.contains("dev"@),
    ensures
        words(output@) == before + (seq!["dev"@, word] + rest) ==> (d matches Some(s) && s@
            == word),
        words(output@) == before ==> d is None,
        m matches Some(v) ==> unsigned_value(trimmed(raw@), usize::MAX as nat) == Some(v as nat),
        m is None ==> unsigned_value(trimmed(raw@), usize::MAX as nat) is None,
{
    crate::laws::wire::law_word_behind(before, "dev"@, word, rest);
}

// ---------------------------------------------------------------------------
// Starting up

/// The test collector is for servers that are built for it and are given an inventory;
/// without the build, an inventory or counters are refused.
pub proof fn law_collector_kind(
    debug: bool,
    inventory: Option<&str>,
    runtime: Option<&str>,
    r: Result<CollectorKind, StartupError>,
)
    requires
        call_ensures(collector_kind, (debug, inventory, runtime), r),
    ensures
        r == Ok::<_, StartupError>(CollectorKind::Test) <==> debug && inventory is Some,
        r is Err <==> !debug && (inventory is Some || runtime is Some),
        r matches Err(e) ==> e.code == ErrorCode::ConfigInvalid,
{
}

/// Announcements are tried from the first attempt up to the limit, until one was sent.
pub proof fn law_announcing(attempt: u32, limit: u32, sent: bool, f: AnnounceNext, a: AnnounceNext)
    requires
        call_ensures(first_announce, (limit,), f),
        call_ensures(after_announce, (attempt, limit, sent), a),
    ensures
        limit > 0 ==> f == AnnounceNext::Retry(1),
        limit == 0 ==> f == AnnounceNext::GiveUp,
        sent <==> a == AnnounceNext::Done,
        !sent && attempt < limit ==> (a matches AnnounceNext::Retry(n) && n == attempt + 1),
        !sent && attempt >= limit ==> a == AnnounceNext::GiveUp,
{
}

/// A node announces its name, its address and its two ports, as not degraded.
pub proof fn law_own_announcement(
    hostname: &str,
    ip: &str,
    udp_port: u16,
    tcp_port: u16,
    r: DiscoveryAnnounce,
)
    requires
        call_ensures(discovery_announce, (hostname, ip, udp_port, tcp_port), r),
    ensures
        r.version == 1,
        r.hostname@ == hostname@,
        r.ip@ == ip@,
        r.port == udp_port,
        r.udp_port == Some(udp_port),
        r.tcp_port == Some(tcp_port),
        r.degraded == Some(false),
        r.kcp_port is None && r.ttl is None && r.load is None,
        forall|protocol: Seq<char>|
            lowered(trimmed(protocol)) == "tcp"@
                ==> #[trigger] crate::client::discovery::announced_port(r, protocol) == tcp_port,
        forall|protocol: Seq<char>|
            lowered(trimmed(protocol)) != "tcp"@
                ==> #[trigger] crate::client::discovery::announced_port(r, protocol) == udp_port,
{
}

/// A node announces itself from each configured address, and from the one that was found
/// where none is configured; the first of them is its own.
pub proof fn law_own_addresses(outbound: &Vec<String>, found: &str, v: Vec<String>, own: String)
    requires
        call_ensures(announce_ips, (outbound, found), v),
        call_ensures(own_ip, (outbound, found), own),
    ensures
        outbound@.len() == 0 ==> v@.len() == 1 && v@[0]@ == found@ && own@ == found@,
        outbound@.len() > 0 ==> v@.len() == outbound@.len() && own@ == outbound@[0]@,
        forall|i: int| 0 <= i < outbound@.len() ==> (#[trigger] v@[i])@ == outbound@[i]@,
{
    assert(texts(v@).len() == v@.len());
    if outbound@.len() == 0 {
        assert(texts(v@)[0] == v@[0]@);
    }
    assert forall|i: int| 0 <= i < outbound@.len() implies (#[trigger] v@[i])@ == outbound@[i]@ by {
        assert(texts(v@)[i] == v@[i]@);
        assert(texts(outbound@)[i] == outbound@[i]@);
    }
}

/// Between two readings a server rests for what is left of the interval, a millisecond at
/// the least.
pub proof fn law_refresh_pause(interval_ms: u64, elapsed_ns: u128, r: u128)
    requires
        call_ensures(refresh_pause_ns, (interval_ms, elapsed_ns), r),
    ensures
        interval_ms > 0 && elapsed_ns < interval_ms * 1_000_000 ==> r + elapsed_ns == interval_ms
            * 1_000_000,
        interval_ms == 0 && elapsed_ns < 1_000_000 ==> r + elapsed_ns == 1_000_000,
        interval_ms > 0 && elapsed_ns >= interval_ms * 1_000_000 ==> r == 0,
        interval_ms == 0 && elapsed_ns >= 1_000_000 ==> r == 0,
{
}

/// The path of the configuration is that of the environment, else the usual one. Of a
/// missing route a hint is given.
pub proof fn law_path_and_hint(
    env: Option<String>,
    path: String,
    message: String,
    os_error: Option<i32>,
    text: String,
)
    requires
        call_ensures(config_path, (env,), path),
        call_ensures(multicast_route_hint, (message, os_error), text),
    ensures
        env matches Some(p) ==> path@ == p@,
        env is None ==> path@ == "/etc/gpustat4cluster/server.toml"@,
        os_error != Some(101i32) && os_error != Some(19i32) ==> text@ == message@,
        os_error == Some(101i32) || os_error == Some(19i32) ==> text@.len() >= message@.len()
            && text@.take(message@.len() as int) == message@ && text@
            == message@
            + "; multicast route/interface is unavailable, configure [connecting].multicast_outbound_ip with one or more local IPv4 addresses"@,
{
    assert(text@.take(message@.len() as int) =~= message@);
}

// ---------------------------------------------------------------------------
// Clients

/// KCP is asked for by the environment, else by the protocol.
pub proof fn law_kcp_requested(protocol: &str, env: Option<&str>, r: bool)
    requires
        call_ensures(kcp_enabled_requested, (protocol, env), r),
    ensures
        env is None ==> (r <==> lowered(protocol@) == lowered("kcp"@)),
        env matches Some(v) ==> (r <==> crate::server::nvml::means_yes(Some(v@))),
{
}

/// The first conversation is numbered by the three seeds together, and never zero.
pub proof fn law_first_conversation(time: u32, addr: u32, process: u32, r: u32)
    requires
        call_ensures(first_conv, (time, addr, process), r),
    ensures
        r != 0,
        (time ^ addr ^ process) != 0 ==> r == time ^ addr ^ process,
        (time ^ addr ^ process) == 0 ==> r == 1,
{
}

/// Where a node sends another number of resources than it announced, that number counts.
pub proof fn law_changed_number(payload_len: u16, announced: u8, got: usize, r: Option<u8>)
    requires
        call_ensures(changed_gres_num, (payload_len, announced, got), r),
    ensures
        payload_len == 0 ==> r is None,
        got == announced ==> r is None,
        payload_len != 0 && got <= 255 && got != announced ==> (r matches Some(n) && n == got),
        payload_len != 0 && got > 255 && announced != 255 ==> r == Some(255u8),
{
}

/// Heartbeats go out over connections that want them, at an interval that is not zero.
pub proof fn law_heartbeats(wanted: bool, interval: u64, r: bool)
    requires
        call_ensures(wants_heartbeat, (wanted, interval), r),
    ensures
        r <==> wanted && interval > 0,
{
}

/// The socket of the backend is that of the environment, else the configured one, else the
/// usual one; a blank one is as good as none.
pub proof fn law_socket_path(env: Option<&str>, configured: Option<&str>, r: String)
    requires
        call_ensures(uds_path_from_config_or_env, (env, configured), r),
    ensures
        ({
            let a = env is Some && trimmed(env->0@).len() > 0;
            let b = configured is Some && trimmed(configured->0@).len() > 0;
            &&& a ==> r@ == trimmed(env->0@)
            &&& !a && b ==> r@ == trimmed(configured->0@)
            &&& !a && !b ==> r@ == "/run/gpustat4cluster/client.sock"@
        }),
{
}

/// A connection that is not kept is told why.
pub proof fn law_reason_of_a_farewell(o: ConnectOutcome, r: Option<&'static str>)
    requires
        call_ensures(ConnectOutcome::disconnect_reason, (o,), r),
    ensures
        r is Some <==> o == ConnectOutcome::DuplicateSession || o == ConnectOutcome::DuplicateHost
            || o == ConnectOutcome::PoolFull,
        o == ConnectOutcome::DuplicateSession ==> r->0@ == "client duplicate session"@,
        o == ConnectOutcome::DuplicateHost ==> r->0@ == "client duplicate hostname"@,
        o == ConnectOutcome::PoolFull ==> r->0@ == "client max connections reached"@,
{
}

/// A frame that was written is read back as its header and its payload.
pub proof fn law_frames_over_the_wire(
    header: FrameHeader,
    payload: &[u8],
    bytes: &[u8],
    written: Vec<u8>,
    taken: Result<(FrameHeader, &[u8]), FrameDecodeError>,
)
    requires
        header.version == 1,
        payload@.len() <= u32::MAX,
        call_ensures(encode_frame, (header, payload), written),
        call_ensures(decode_frame, (bytes,), taken),
        written@ == bytes@,
    ensures
        taken matches Ok((h, p)) && p@ == payload@ && h.version == 1 && h.frame_type
            == header.frame_type && h.request_id == header.request_id && h.payload_len
            == payload@.len(),
{
    crate::common::frame::law_frame_reads_back(header, payload@);
}

/// What the backend does with a command: `LIST` lists the rows, `QUERY` asks for nodes with
/// what stands behind it, and anything else is refused, with its words. Without a payload a
/// query asks for everything.
pub proof fn law_commands<P: Fn(&str) -> Result<QueryRequest, String>>(
    state: &LocalApiState,
    cmd: &str,
    parse: &P,
    r: CommandStep,
)
    requires
        call_ensures(LocalApiState::handle_command::<P>, (state, cmd, parse), r),
        !state@.test_endpoints,
    ensures
        cmd@ == "LIST"@ ==> (r matches CommandStep::Reply(s) && is_listing(state@.rows, s@)),
        begins(cmd@, "QUERY"@) && trimmed(cmd@.skip(5)).len() == 0 && cmd@ != "LIST"@ ==> (
        r matches CommandStep::Query(q) && q.filter is None && q.user is None),
        begins(cmd@, "QUERY"@) && trimmed(cmd@.skip(5)).len() > 0 && cmd@ != "LIST"@ ==> exists|
            s: &str,
            p: Result<QueryRequest, String>,
        |
            s@ == trimmed(cmd@.skip(5)) && #[trigger] call_ensures(*parse, (s,), p) && match p {
                Ok(q) => r == CommandStep::Query(q),
                Err(e) => r matches CommandStep::Failed(text) && text@
                    == "invalid QUERY payload: "@ + e@,
            },
        cmd@ != "LIST"@ && !begins(cmd@, "QUERY"@) ==> (r matches CommandStep::Reply(s) && s@
            == "ERR unsupported command: "@ + cmd@ + "\n"@),
{
}

/// A query that went out somewhere was sent; one that went out nowhere failed for the first
/// reason there was.
pub proof fn law_query_sent(
    sent: usize,
    first_error: Option<String>,
    target: &NodeAddr,
    r: Result<(), String>,
)
    requires
        call_ensures(query_sent, (sent, first_error, target), r),
    ensures
        sent > 0 <==> r is Ok,
        sent == 0 && first_error is Some ==> r->Err_0@ == first_error->0@,
        sent == 0 && first_error is None ==> r->Err_0@ == "send query to "@
            + crate::common::net::addr_text(target@) + " failed on every outbound IP"@,
{
}

// ---------------------------------------------------------------------------
// Sessions

/// A session is let in while there are fewer than allowed; others are told so and go.
pub proof fn law_sessions_let_in(active: usize, limit: usize, r: Option<Vec<u8>>)
    requires
        call_ensures(accept_session, (active, limit), r),
    ensures
        r is None <==> active < limit,
        r matches Some(frame) ==> frame@ == crate::server::session::disconnect_bytes(
            "server max connections reached"@,
        ),
{
}

/// What a session over KCP does: it ends when nothing comes in time or the peer is gone, and
/// otherwise looks at the frame, heartbeats among them. Over TCP there are none.
pub proof fn law_session_reads(read: &KcpRead, frame: &[u8], k: SessionStep, t: SessionStep)
    requires
        call_ensures(kcp_step, (read,), k),
        call_ensures(tcp_step, (frame,), t),
    ensures
        read matches KcpRead::TimedOut ==> k@ == SessionStepView::TimedOut(
            crate::server::session::disconnect_bytes("server idle timeout"@),
        ),
        read matches KcpRead::Bytes(b) ==> b@.len() == 0 ==> k@ == SessionStepView::Closed,
        read matches KcpRead::Bytes(b) ==> b@.len() > 0 ==> k@ == step_after_frame(b@, true),
        t@ == step_after_frame(frame@, false),
{
}

/// The model of a step of a session holds what the step holds.
pub proof fn law_model_of_session_step(
    s: String,
    e: TransportError,
    b: Vec<u8>,
    id: u64,
    request: Request,
)
    ensures
        SessionStep::Closed@ == SessionStepView::Closed,
        SessionStep::Continue@ == SessionStepView::Continue,
        SessionStep::Disconnected(s)@ == SessionStepView::Disconnected(s@),
        SessionStep::Failed(e)@ == SessionStepView::Failed(e),
        SessionStep::TimedOut(b)@ == SessionStepView::TimedOut(b@),
        SessionStep::ParseHandshake(id, b)@ == SessionStepView::ParseHandshake(id, b@),
        SessionStep::ParseQuery(b)@ == SessionStepView::ParseQuery(b@),
        SessionStep::Answer(request)@ == SessionStepView::Answer(request),
{
}

/// How many bytes follow a header is what the header says.
pub proof fn law_bytes_behind_a_header(header: &[u8], r: Result<usize, FrameHeaderError>)
    requires
        call_ensures(payload_len_behind, (header,), r),
        header@.len() == 18,
    ensures
        r matches Ok(n) ==> n == be_value(header@.subrange(14, 18)),
        r is Ok <==> header@[0] == 'G' as u8 && header@[1] == '4' as u8 && header@[2] == 'C' as u8
            && header@[3] == '1' as u8 && header@[4] == 1 && 1 <= header@[5] <= 11,
{
    crate::laws::wire::law_frame_is_read(header@);
    crate::bytes::lemma_byte_capacities();
    crate::bytes::lemma_be_value_bound(header@.subrange(14, 18));
}

// ---------------------------------------------------------------------------
// Defaults

/// The numbers that stand where the configuration gives none.
pub proof fn law_default_numbers(
    heartbeat: u64,
    idle: u64,
    connections: usize,
    tcp: u16,
    udp: u16,
    mtu: u16,
    wait: u64,
    retries: u32,
    ttl: u64,
    interval: u64,
    latency: bool,
)
    requires
        call_ensures(default_heartbeat_interval_secs, (), heartbeat),
        call_ensures(default_connection_idle_timeout_secs, (), idle),
        call_ensures(default_max_connections, (), connections),
        call_ensures(default_tcp_port, (), tcp),
        call_ensures(default_udp_port, (), udp),
        call_ensures(default_udp_mtu, (), mtu),
        call_ensures(default_discover_wait_secs, (), wait),
        call_ensures(default_multicast_retry_limit, (), retries),
        call_ensures(default_cache_ttl_ms, (), ttl),
        call_ensures(default_collector_interval_ms, (), interval),
        call_ensures(default_latency_display, (), latency),
    ensures
        heartbeat == 5 && idle == 10 && connections == 64,
        tcp == 0 && udp == 0 && mtu == 0,
        wait == 5 && retries == 5,
        ttl == 40 && interval == 25,
        latency,
{
}

/// The texts that stand where the configuration gives none are ones that it accepts.
pub proof fn law_default_texts(protocol: String, size: String)
    requires
        call_ensures(default_protocol, (), protocol),
        call_ensures(default_log_max_size, (), size),
    ensures
        protocol@ == "udp"@,
        protocol_fault(protocol@) is None,
        log_size(size@) == Ok::<u64, FaultView>(5242880),
{
    reveal_strlit("udp");
    reveal_strlit("5mb");
    reveal_strlit("mb");
    crate::laws::text::law_trimmed_text_stays(protocol@);
    crate::laws::text::law_trimmed_text_stays(size@);
    assert(lowered("udp"@) =~= "udp"@);
    let unit = "mb"@;
    crate::laws::text::law_trimmed_text_stays(unit);
    assert(lowered(unit) =~= unit);
    assert(size@ =~= seq!['5'] + unit);
    assert(seq!['5'].drop_last() =~= Seq::<char>::empty());
    reveal_with_fuel(crate::text::digits_value, 2);
    assert(crate::text::digits_value(seq!['5']) == 5);
    crate::laws::startup::law_units();
    crate::laws::startup::law_log_size(size@, seq!['5'], unit);
}

// ---------------------------------------------------------------------------
// Messages

/// Messages that are made here are of version 1 and hold what they are made from.
pub proof fn law_made_messages(
    hostname: String,
    gpu_num: u8,
    payload_len: u16,
    id: u64,
    code: ErrorCode,
    t: FrameType,
    len: u32,
    info: HandshakeInfo,
    good: WireQueryResponse,
    bad: WireQueryResponse,
    request: HandshakeRequest,
    header: FrameHeader,
)
    requires
        call_ensures(HandshakeInfo::current, (hostname, gpu_num, payload_len), info),
        call_ensures(WireQueryResponse::ok, (id,), good),
        call_ensures(WireQueryResponse::error, (id, code), bad),
        call_ensures(HandshakeRequest::current, (), request),
        call_ensures(FrameHeader::new, (t, id, len), header),
    ensures
        info.version == 1 && info.hostname@ == hostname@ && info.gpu_num == gpu_num
            && info.payload_len == payload_len,
        good.version == 1 && good.request_id == id && good.status is Success && good.error is None,
        bad.version == 1 && bad.request_id == id && bad.status is Error && bad.error == Some(code),
        request.version == 1,
        header.version == 1 && header.frame_type == t && header.request_id == id
            && header.payload_len == len,
{
}

/// A backend's answer is what is read from it, and what cannot be read is refused with the
/// reason.
pub proof fn law_backend_answer<P: Fn(&str) -> Result<QueryResponse, String>>(
    raw: &str,
    parse: &P,
    r: Result<QueryResponse, String>,
)
    requires
        call_ensures(decode_response::<P>, (raw, parse), r),
    ensures
        r matches Ok(response) ==> call_ensures(
            *parse,
            (raw,),
            Ok::<QueryResponse, String>(response),
        ),
        r matches Err(text) ==> exists|e: String| #[trigger]
            call_ensures(*parse, (raw,), Err::<QueryResponse, String>(e)) && text@
                == "invalid backend response: "@ + e@,
{
    let p = choose|p: Result<QueryResponse, String>| #[trigger]
        call_ensures(*parse, (raw,), p) && match p {
            Ok(response) => r == Ok::<QueryResponse, String>(response),
            Err(e) => r matches Err(text) && text@ == "invalid backend response: "@ + e@,
        };
    match p {
        Ok(response) => {
            assert(call_ensures(*parse, (raw,), Ok::<QueryResponse, String>(response)));
        },
        Err(e) => {
            assert(call_ensures(*parse, (raw,), Err::<QueryResponse, String>(e)));
        },
    }
}

/// The configured addresses are those with commas between them, in order, without white
/// space around them and without blank ones.
pub proof fn law_configured_addresses(
    raw: &str,
    item: Seq<char>,
    rest: Seq<char>,
    r: Vec<String>,
)
    requires
        call_ensures(static_node_items, (raw,), r),
        !item.contains(',') && !rest.contains(','),
        raw@ == item + seq![','] + rest,
    ensures
        trimmed(item).len() > 0 && trimmed(rest).len() > 0 ==> r@.len() == 2 && r@[0]@ == trimmed(
            item,
        ) && r@[1]@ == trimmed(rest),
        trimmed(item).len() > 0 && trimmed(rest).len() == 0 ==> r@.len() == 1 && r@[0]@ == trimmed(
            item,
        ),
        trimmed(item).len() == 0 && trimmed(rest).len() > 0 ==> r@.len() == 1 && r@[0]@ == trimmed(
            rest,
        ),
        trimmed(item).len() == 0 && trimmed(rest).len() == 0 ==> r@.len() == 0,
{
    crate::laws::text::law_split_off(item, ',', rest);
    crate::laws::text::law_split_off(rest, ',', rest);
    let none = Seq::<Seq<char>>::empty();
    crate::laws::discovery::law_one_more_static_item(none, item);
    crate::laws::discovery::law_one_more_static_item(seq![item], rest);
    assert(none.push(item) =~= seq![item]);
    assert(seq![item].push(rest) =~= seq![item] + seq![rest]);
    let all = texts(r@);
    assert(all.len() == r@.len());
    if r@.len() > 0 {
        assert(all[0] == r@[0]@);
    }
    if r@.len() > 1 {
        assert(all[1] == r@[1]@);
    }
}

// ---------------------------------------------------------------------------
// Collectors

/// A test collector has as many resources as asked for, and one at the least; one that is
/// given its inventory has that one.
pub proof fn law_test_collectors(
    hostname: &str,
    count: u8,
    inventory: TestGresInventory,
    one: TestGresCollector,
    many: TestGresCollector,
    given: TestGresCollector,
)
    requires
        call_ensures(TestGresCollector::new, (hostname,), one),
        call_ensures(TestGresCollector::with_gres_count, (hostname, count), many),
        call_ensures(TestGresCollector::from_inventory, (inventory,), given),
    ensures
        one.spec_inventory().gres.len() == 1 && one.spec_inventory().hostname == hostname@,
        count > 0 ==> many.spec_inventory().gres.len() == count,
        count == 0 ==> many.spec_inventory().gres.len() == 1,
        many.spec_inventory().hostname == hostname@,
        given.spec_inventory() == inventory@,
{
}

/// A collector that is down gives its error, and nothing else.
pub proof fn law_degraded_collector(
    code: ErrorCode,
    c: DegradedCollector,
    r: Result<GresNodeSnapshot, ErrorCode>,
)
    requires
        call_ensures(DegradedCollector::new, (code,), c),
        call_ensures(<DegradedCollector as GresCollector>::collect_gres, (&c,), r),
    ensures
        r == Err::<GresNodeSnapshot, ErrorCode>(code),
{
}

/// Without an inventory there is no reading; with one it is read with the counters that were
/// found, and with those of the start where there are none.
pub proof fn law_reading_from_files(
    inventory: &TestGresInventory,
    runtime: Option<&TestGresRuntimeState>,
    none: Result<GresNodeSnapshot, ErrorCode>,
    some: Result<GresNodeSnapshot, ErrorCode>,
)
    requires
        call_ensures(reading_from_files, (None, runtime), none),
        call_ensures(reading_from_files, (Some(inventory), runtime), some),
    ensures
        none == Err::<GresNodeSnapshot, ErrorCode>(ErrorCode::ConfigInvalid),
        some matches Ok(s) && s.resources@.len() == inventory.gres@.len() && s.hostname@
            == inventory.hostname@,
        runtime matches Some(c) ==> some->Ok_0@ == test_node_reading(inventory@, c@),
        runtime is None ==> some->Ok_0@ == test_node_reading(
            inventory@,
            runtime_at(inventory@, 0),
        ),
{
    let reading = some->Ok_0;
    assert(reading@.resources.len() == reading.resources@.len());
    assert(inventory@.gres.len() == inventory.gres@.len());
}

/// A receiver waits until its own deadline and that of the chunks it has.
pub proof fn law_receiver_waits(x: &UdpReceiver, now_ms: u64, r: bool)
    requires
        call_ensures(UdpReceiver::waiting, (x, now_ms), r),
    ensures
        now_ms >= x@.deadline_ms ==> !r,
        x@.chunks is None ==> (r <==> now_ms < x@.deadline_ms),
        x@.chunks matches Some((_, deadline)) ==> (r <==> now_ms < x@.deadline_ms && now_ms
            < deadline),
{
}

} // verus!
