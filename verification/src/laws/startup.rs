//! Laws of starting a server.

use vstd::prelude::*;
use crate::common::config::Config;
use crate::common::error::ErrorCode;
use crate::server::startup::{
    candidates, config_fault, configured_path, conflict_message, digits_end, exhausted_message,
    fault, first_name, is_checked, law_candidates_are_the_range, log_size, multicast_fault,
    nvml_hint, nvml_message, outbound_ips, passed_over, picked, port_range_fault, positive_fault,
    protocol_fault, tried_ports, unavailable_message, unit_bytes, FaultView, MulticastLookup,
    PortKind, StartupError,
};
use crate::text::{decimal, digits_value, is_digit, lowered, texts, trimmed};

verus! {

/// The fault that a wrong configuration is.
pub open spec fn config_invalid(message: Seq<char>) -> Option<FaultView> {
    Some(FaultView { code: ErrorCode::ConfigInvalid, message, hint: None })
}

/// A check returns its fault as the error that it is, and nothing where there is
/// none.
pub proof fn law_checks_return_their_fault(
    r: Result<(), StartupError>,
    wanted: Option<FaultView>,
)
    requires
        is_checked(r, wanted),
    ensures
        r is Ok <==> wanted is None,
        r matches Err(e) ==> wanted matches Some(f) && e.code == f.code && e.message@ == f.message
            && (e.hint is Some <==> f.hint is Some),
{
}

/// A port range holds two ports other than zero, the smaller one first; any other
/// is refused.
pub proof fn law_port_range(range: Seq<u16>)
    requires
        range.len() == 2,
    ensures
        port_range_fault(range) is None <==> 1 <= range[0] <= range[1],
        !(1 <= range[0] <= range[1]) ==> port_range_fault(range) == config_invalid(
            "invalid port_range ["@ + decimal(range[0] as nat) + ", "@ + decimal(range[1] as nat)
                + "]"@,
        ),
{
}

/// A multicast address has to be found and to be one.
pub proof fn law_multicast_address(raw: Seq<char>, lookup: MulticastLookup)
    ensures
        multicast_fault(raw, lookup) is None <==> lookup is Multicast,
        multicast_fault(raw, lookup) matches Some(f) ==> f.code == ErrorCode::MulticastFailed
            && f.hint is None,
        lookup is NoAddress ==> multicast_fault(raw, lookup)->0.message
            == "invalid multicast_addr '"@ + raw + "': "@ + "no resolved address"@,
        lookup is NotMulticast ==> multicast_fault(raw, lookup)->0.message
            == "invalid multicast_addr '"@ + raw + "': "@ + "IP is not multicast"@,
        lookup matches MulticastLookup::Failed(e) ==> multicast_fault(raw, lookup)->0.message
            == "invalid multicast_addr '"@ + raw + "': "@ + e@,
{
}

/// The protocol is `udp` or `tcp`, in any letters and with white space around it.
pub proof fn law_protocol(raw: Seq<char>)
    ensures
        protocol_fault(raw) is None <==> lowered(trimmed(raw)) == "udp"@ || lowered(trimmed(raw))
            == "tcp"@,
        protocol_fault(raw) is Some ==> protocol_fault(raw) == config_invalid(
            "invalid connecting.protocol '"@ + lowered(trimmed(raw))
                + "': expected 'udp' or 'tcp'"@,
        ),
{
}

/// A value that has to be positive is refused where it is zero.
pub proof fn law_positive(name: Seq<char>, value: u64)
    ensures
        value > 0 ==> positive_fault(name, value) is None,
        value == 0 ==> positive_fault(name, value) == config_invalid(
            "invalid "@ + name + ": must be > 0"@,
        ),
{
}

proof fn lemma_outbound_start(
    raw: Seq<Seq<char>>,
    faults: Seq<Option<Seq<char>>>,
    more: Seq<Seq<char>>,
    other: Seq<Option<Seq<char>>>,
    n: int,
)
    requires
        n <= raw.len() <= more.len(),
        n <= faults.len() <= other.len(),
        forall|i: int| 0 <= i < n ==> raw[i] == more[i],
        forall|i: int| 0 <= i < n ==> faults[i] == other[i],
    ensures
        outbound_ips(raw, faults, n) == outbound_ips(more, other, n),
    decreases n,
{
    if n > 0 {
        lemma_outbound_start(raw, faults, more, other, n - 1);
    }
}

/// The outbound addresses without white space around them and without blank ones,
/// in order; the first that is no address is what they are refused for.
pub proof fn law_one_more_outbound_ip(
    raw: Seq<Seq<char>>,
    faults: Seq<Option<Seq<char>>>,
    item: Seq<char>,
    fault_of: Option<Seq<char>>,
)
    requires
        raw.len() == faults.len(),
    ensures
        ({
            let n = raw.len() as int;
            let before = outbound_ips(raw, faults, n);
            let after = outbound_ips(raw.push(item), faults.push(fault_of), n + 1);
            &&& before is Err ==> after == before
            &&& before matches Ok(list) ==> {
                &&& trimmed(item).len() == 0 ==> after == before
                &&& trimmed(item).len() > 0 && fault_of is None ==> after == Ok::<_, FaultView>(
                    list.push(trimmed(item)),
                )
                &&& trimmed(item).len() > 0 && fault_of is Some ==> after is Err && Some(
                    after->Err_0,
                ) == config_invalid(
                    "invalid connecting.multicast_outbound_ip entry '"@ + trimmed(item)
                        + "': expected IPv4 address, got "@ + fault_of->0,
                )
            }
        }),
        outbound_ips(Seq::empty(), Seq::empty(), 0) == Ok::<Seq<Seq<char>>, FaultView>(
            Seq::empty(),
        ),
{
    lemma_outbound_start(raw, faults, raw.push(item), faults.push(fault_of), raw.len() as int);
}

// ---------------------------------------------------------------------------
// Sizes of the log

/// The units of a size: bytes, and three steps of 1024, with an `i` or without.
pub proof fn law_units()
    ensures
        unit_bytes(Seq::empty()) == Some(1u64),
        unit_bytes("b"@) == Some(1u64),
        unit_bytes("kb"@) == Some(1024u64),
        unit_bytes("kib"@) == Some(1024u64),
        unit_bytes("mb"@) == Some(1048576u64),
        unit_bytes("mib"@) == Some(1048576u64),
        unit_bytes("gb"@) == Some(1073741824u64),
        unit_bytes("gib"@) == Some(1073741824u64),
        forall|u: Seq<char>|
            u.len() > 0 && u != "b"@ && u != "kb"@ && u != "kib"@ && u != "mb"@ && u != "mib"@ && u
                != "gb"@ && u != "gib"@ ==> (#[trigger] unit_bytes(u)) is None,
{
    reveal_strlit("");
    reveal_strlit("b");
    reveal_strlit("kb");
    reveal_strlit("kib");
    reveal_strlit("mb");
    reveal_strlit("mib");
    reveal_strlit("gb");
    reveal_strlit("gib");
    assert(""@ =~= Seq::<char>::empty());
    assert("b"@[0] == 'b');
    assert("kb"@[0] == 'k' && "mb"@[0] == 'm' && "gb"@[0] == 'g');
    assert("kib"@[0] == 'k' && "mib"@[0] == 'm' && "gib"@[0] == 'g');
}

proof fn lemma_digits_end(number: Seq<char>, rest: Seq<char>)
    requires
        forall|i: int| 0 <= i < number.len() ==> is_digit(#[trigger] number[i]),
        rest.len() > 0 ==> !is_digit(rest[0]),
    ensures
        digits_end(number + rest) == number.len(),
    decreases number.len(),
{
    let all = number + rest;
    if number.len() > 0 {
        let tail = number.drop_first();
        assert(is_digit(number[0]));
        assert(all[0] == number[0]);
        assert forall|i: int| 0 <= i < tail.len() implies is_digit(#[trigger] tail[i]) by {
            assert(tail[i] == number[i + 1]);
        }
        lemma_digits_end(tail, rest);
        assert(all.drop_first() =~= tail + rest);
    } else {
        assert(all =~= rest);
    }
}

/// A size is a number and a unit, with white space around and between them and in
/// any letters: the number times what the unit stands for. It is refused if the
/// number is missing, zero or too large, or the unit is none.
pub proof fn law_log_size(raw: Seq<char>, number: Seq<char>, unit: Seq<char>)
    requires
        trimmed(raw) == number + unit,
        forall|i: int| 0 <= i < number.len() ==> is_digit(#[trigger] number[i]),
        unit.len() > 0 ==> !is_digit(unit[0]),
    ensures
        ({
            let r = log_size(raw);
            let n = digits_value(number);
            let k = unit_bytes(lowered(trimmed(unit)));
            let head = "invalid log.max_size '"@ + raw + "': "@;
            &&& number.len() > 0 && 0 < n <= u64::MAX && k is Some && n * k->0 <= u64::MAX ==> r
                == Ok::<u64, FaultView>((n * k->0) as u64)
            &&& number.len() == 0 && unit.len() == 0 ==> r is Err && Some(r->Err_0)
                == config_invalid("invalid log.max_size: empty value"@)
            &&& number.len() == 0 && unit.len() > 0 ==> r is Err && Some(r->Err_0)
                == config_invalid(head + "missing number"@)
            &&& number.len() > 0 && n > u64::MAX ==> r is Err && Some(r->Err_0) == config_invalid(
                head + "number too large to fit in target type"@,
            )
            &&& number.len() > 0 && n == 0 ==> r is Err && Some(r->Err_0) == config_invalid(
                "invalid log.max_size: must be > 0"@,
            )
            &&& number.len() > 0 && 0 < n <= u64::MAX && k is None ==> r is Err && Some(r->Err_0)
                == config_invalid(
                head + ("unsupported unit '"@ + lowered(trimmed(unit)) + "'"@),
            )
            &&& number.len() > 0 && 0 < n <= u64::MAX && k is Some && n * k->0 > u64::MAX
                ==> r is Err && Some(r->Err_0) == config_invalid(head + "value too large"@)
        }),
{
    lemma_digits_end(number, unit);
    let s = number + unit;
    assert(s.take(number.len() as int) =~= number);
    assert(s.skip(number.len() as int) =~= unit);
}

// ---------------------------------------------------------------------------
// The whole configuration

/// What a configuration is checked for, in this order.
pub open spec fn faults_of(
    c: Config,
    lookup: MulticastLookup,
    outbound: Seq<Option<Seq<char>>>,
) -> Seq<Option<FaultView>> {
    let ips = outbound_ips(
        texts(c.connecting.multicast_outbound_ip@),
        outbound,
        c.connecting.multicast_outbound_ip@.len() as int,
    );
    let size = log_size(c.log.max_size@);
    seq![
        port_range_fault(c.connecting.port_range@),
        multicast_fault(c.connecting.multicast_addr@, lookup),
        protocol_fault(c.connecting.protocol@),
        positive_fault("cache_ttl_ms"@, c.services.cache_ttl_ms),
        positive_fault("collector_interval_ms"@, c.services.collector_interval_ms),
        positive_fault("heartbeat_interval"@, c.connecting.heartbeat_interval),
        positive_fault("connection_idle_timeout"@, c.connecting.connection_idle_timeout),
        positive_fault("max_connections"@, c.connecting.max_connections as u64),
        positive_fault("discover_wait_secs"@, c.connecting.discover_wait_secs),
        positive_fault("multicast_retry_limit"@, c.connecting.multicast_retry_limit as u64),
        if ips is Err {
            Some(ips->Err_0)
        } else {
            None
        },
        if size is Err {
            Some(size->Err_0)
        } else {
            None
        },
    ]
}

/// A configuration is refused for the first thing that is wrong with it, and
/// accepted if nothing is.
pub proof fn law_configuration(
    c: Config,
    lookup: MulticastLookup,
    outbound: Seq<Option<Seq<char>>>,
    i: int,
)
    ensures
        0 <= i < 12 && faults_of(c, lookup, outbound)[i] is Some && (forall|j: int|
            0 <= j < i ==> (#[trigger] faults_of(c, lookup, outbound)[j]) is None) ==> config_fault(
            c,
            lookup,
            outbound,
        ) == faults_of(c, lookup, outbound)[i],
        (forall|j: int| 0 <= j < 12 ==> (#[trigger] faults_of(c, lookup, outbound)[j]) is None)
            <==> config_fault(c, lookup, outbound) is None,
        config_fault(c, lookup, outbound) is None ==> {
            &&& 1 <= c.connecting.port_range@[0] <= c.connecting.port_range@[1]
            &&& lookup is Multicast
            &&& c.services.cache_ttl_ms > 0
            &&& c.services.collector_interval_ms > 0
            &&& c.connecting.heartbeat_interval > 0
            &&& c.connecting.connection_idle_timeout > 0
            &&& c.connecting.max_connections > 0
            &&& c.connecting.discover_wait_secs > 0
            &&& c.connecting.multicast_retry_limit > 0
            &&& log_size(c.log.max_size@) is Ok
        },
{
    let all = faults_of(c, lookup, outbound);
    assert(all.len() == 12);
    let a0 = all[0];
    let a1 = all[1];
    let a2 = all[2];
    let a3 = all[3];
    let a4 = all[4];
    let a5 = all[5];
    let a6 = all[6];
    let a7 = all[7];
    let a8 = all[8];
    let a9 = all[9];
    let a10 = all[10];
    let a11 = all[11];
    assert(config_fault(c, lookup, outbound) == (if a0 is Some {
        a0
    } else if a1 is Some {
        a1
    } else if a2 is Some {
        a2
    } else if a3 is Some {
        a3
    } else if a4 is Some {
        a4
    } else if a5 is Some {
        a5
    } else if a6 is Some {
        a6
    } else if a7 is Some {
        a7
    } else if a8 is Some {
        a8
    } else if a9 is Some {
        a9
    } else if a10 is Some {
        a10
    } else {
        a11
    }));
    if forall|j: int| 0 <= j < 12 ==> (#[trigger] all[j]) is None {
        assert(a0 is None && a1 is None && a2 is None && a3 is None && a4 is None && a5 is None
            && a6 is None && a7 is None && a8 is None && a9 is None && a10 is None && a11 is None);
    }
}

// ---------------------------------------------------------------------------
// Ports

/// Ports are tried upwards from the one where the search begins, and from the start
/// of the range when its end is reached.
pub proof fn law_order_of_ports(start: u16, end: u16, offset: int, i: int)
    requires
        start <= end,
        0 <= offset <= end - start,
        0 <= i <= end - start,
    ensures
        candidates(start, end, offset).len() == end - start + 1,
        candidates(start, end, offset)[0] == start + offset,
        i < end - start ==> candidates(start, end, offset)[i + 1] as int == (if candidates(
            start,
            end,
            offset,
        )[i] == end {
            start as int
        } else {
            candidates(start, end, offset)[i] + 1
        }),
{
    let count = end - start + 1;
    assert(offset % count == offset) by (nonlinear_arith)
        requires
            0 <= offset < count,
    ;
    let a = offset + i;
    if i < end - start {
        if a < count {
            assert(a % count == a) by (nonlinear_arith)
                requires
                    0 <= a < count,
            ;
        } else {
            assert(a % count == a - count) by (nonlinear_arith)
                requires
                    count <= a < 2 * count,
            ;
        }
        let b = a + 1;
        if b < count {
            assert(b % count == b) by (nonlinear_arith)
                requires
                    0 <= b < count,
            ;
        } else if b < 2 * count {
            assert(b % count == b - count) by (nonlinear_arith)
                requires
                    count <= b < 2 * count,
            ;
        }
        assert(candidates(start, end, offset)[i] == start + a % count);
        assert(candidates(start, end, offset)[i + 1] == start + b % count);
    }
}

/// A port that is picked can be bound and is not the one left out. It is the one
/// asked for or, where none was, one of the range; and where a range gives none, each
/// of its ports was left out or could not be bound.
pub proof fn law_picked_port<B: Fn(u16) -> bool>(
    kind: PortKind,
    range: Seq<u16>,
    requested: u16,
    exclude: Option<u16>,
    nanos: u32,
    can_bind: B,
    r: Result<u16, StartupError>,
)
    requires
        requested == 0 ==> range[0] <= range[1],
        picked(kind, range, requested, exclude, tried_ports(range, nanos), can_bind, r),
    ensures
        r matches Ok(p) ==> exclude != Some(p) && call_ensures(can_bind, (p,), true),
        requested != 0 ==> (r matches Ok(p) ==> p == requested),
        requested == 0 ==> (r matches Ok(p) ==> range[0] <= p <= range[1]),
        requested != 0 && exclude == Some(requested) ==> r is Err && r->Err_0@ == (FaultView {
            code: ErrorCode::PortExhausted,
            message: conflict_message(kind, requested),
            hint: None,
        }),
        requested != 0 && exclude != Some(requested) && r is Err ==> r->Err_0@ == (FaultView {
            code: ErrorCode::PortExhausted,
            message: unavailable_message(kind, requested),
            hint: None,
        }) && call_ensures(can_bind, (requested,), false),
        requested == 0 && r is Err ==> r->Err_0@ == (FaultView {
            code: ErrorCode::PortExhausted,
            message: exhausted_message(kind, range[0], range[1]),
            hint: None,
        }) && forall|p: u16|
            range[0] <= p <= range[1] ==> #[trigger] passed_over(can_bind, exclude, p),
{
    if requested == 0 {
        let count = range[1] - range[0] + 1;
        let offset = nanos as int % count;
        assert(0 <= offset < count) by (nonlinear_arith)
            requires
                offset == nanos as int % count,
                count > 0,
        ;
        law_candidates_are_the_range(range[0], range[1], offset);
        let tried = tried_ports(range, nanos);
        match r {
            Ok(p) => {
                let k = choose|k: int|
                    #![trigger tried[k]]
                    0 <= k < tried.len() && tried[k] == p && forall|j: int|
                        #![trigger tried[j]]
                        0 <= j < k ==> passed_over(can_bind, exclude, tried[j]);
                assert(tried.contains(p));
            },
            Err(_) => {
                assert forall|p: u16| range[0] <= p <= range[1] implies #[trigger] passed_over(
                    can_bind,
                    exclude,
                    p,
                ) by {
                    assert(tried.contains(p));
                    let j = tried.index_of(p);
                    assert(passed_over(can_bind, exclude, tried[j]));
                }
            },
        }
    }
}

/// What is said of a port that cannot be had.
pub proof fn law_port_messages(port: u16, start: u16, end: u16)
    ensures
        conflict_message(PortKind::Udp, port) == "configured udp_port "@ + decimal(port as nat)
            + " conflicts with another UDP port"@,
        conflict_message(PortKind::Tcp, port) == "configured tcp_port "@ + decimal(port as nat)
            + " conflicts with udp_port"@,
        unavailable_message(PortKind::Udp, port) == "configured udp_port "@ + decimal(port as nat)
            + " is not available"@,
        unavailable_message(PortKind::Tcp, port) == "configured tcp_port "@ + decimal(port as nat)
            + " is not available"@,
        exhausted_message(PortKind::Udp, start, end) == "all UDP ports exhausted in range ["@
            + decimal(start as nat) + ", "@ + decimal(end as nat) + "]"@,
        exhausted_message(PortKind::Tcp, start, end) == "all TCP ports exhausted in range ["@
            + decimal(start as nat) + ", "@ + decimal(end as nat) + "]"@,
{
}

// ---------------------------------------------------------------------------
// Names

/// The name of the host is the first that is not blank, without white space around
/// it, and `unknown-host` where there is none.
pub proof fn law_host_name(source: Option<Seq<char>>, rest: Seq<Option<Seq<char>>>)
    ensures
        first_name(Seq::empty()) == "unknown-host"@,
        source is Some && trimmed(source->0).len() > 0 ==> first_name(seq![source] + rest)
            == trimmed(source->0),
        source is None || trimmed(source->0).len() == 0 ==> first_name(seq![source] + rest)
            == first_name(rest),
        configured_path(None) is None,
        source is Some && trimmed(source->0).len() > 0 ==> configured_path(source) == Some(
            trimmed(source->0),
        ),
        source is Some && trimmed(source->0).len() == 0 ==> configured_path(source) is None,
{
    assert((seq![source] + rest).drop_first() =~= rest);
    assert((seq![source] + rest)[0] == source);
}

/// What is said where the NVIDIA library cannot be loaded: which one was tried, and what can
/// be done about it.
pub proof fn law_library_messages(path: Seq<char>)
    ensures
        trimmed(path).len() > 0 ==> nvml_message(Some(path))
            == "NVML collector init failed while loading configured runtime.nvml_lib_path='"@
            + trimmed(path) + "'"@,
        trimmed(path).len() == 0 ==> nvml_message(Some(path)) == nvml_message(None) && nvml_hint(
            Some(path),
        ) == nvml_hint(None),
        nvml_message(None)
            == "NVML collector init failed while loading default libnvidia-ml.so; configure [runtime].nvml_lib_path if this host only provides a versioned NVML library"@,
        trimmed(path).len() > 0 ==> nvml_hint(Some(path))
            == "Verify the configured NVML library path exists, is readable by the gpustat4cluster service user, and is a real NVIDIA runtime library, not the CUDA stubs library."@,
{
}

} // verus!
