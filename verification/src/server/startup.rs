//! Starting a node: its configuration, its ports and its announcements.

use vstd::prelude::*;
use crate::common::config::Config;
use crate::common::error::ErrorCode;
use crate::common::frame::PROTOCOL_VERSION;
use crate::common::message::DiscoveryAnnounce;
use crate::common::snapshot::opt_text;
use crate::text::{
    chars_of, decimal, digits_value, is_digit, lowered, opt_str, parse_digits, push_decimal, same,
    slice_of, texts, to_lower, trim, trimmed,
};

verus! {

pub const DEFAULT_CONFIG_PATH: &'static str = "/etc/gpustat4cluster/server.toml";

/// Why a node does not start.
#[derive(Debug, PartialEq, Eq)]
pub struct StartupError {
    pub code: ErrorCode,
    pub message: String,
    pub hint: Option<String>,
}

pub struct FaultView {
    pub code: ErrorCode,
    pub message: Seq<char>,
    pub hint: Option<Seq<char>>,
}

impl View for StartupError {
    type V = FaultView;

    open spec fn view(&self) -> FaultView {
        FaultView { code: self.code, message: self.message@, hint: opt_text(self.hint) }
    }
}

/// A fault without a hint.
pub open spec fn fault(code: ErrorCode, message: Seq<char>) -> FaultView {
    FaultView { code, message, hint: None }
}

impl StartupError {
    pub fn new(code: ErrorCode, message: String) -> (r: StartupError)
        ensures
            r@ == fault(code, message@),
    {
        StartupError { code, message, hint: None }
    }

    pub fn with_hint(self, hint: String) -> (r: StartupError)
        ensures
            r@ == (FaultView { hint: Some(hint@), ..self@ }),
    {
        StartupError { code: self.code, message: self.message, hint: Some(hint) }
    }
}

/// Whether `r` is an error with the given fault, or good if there is none.
pub open spec fn is_checked(r: Result<(), StartupError>, wanted: Option<FaultView>) -> bool {
    match r {
        Ok(()) => wanted is None,
        Err(e) => wanted == Some(e@),
    }
}

// ---------------------------------------------------------------------------
// Checks

/// A text of three parts.
fn text3(a: &str, b: &str, c: &str) -> (r: String)
    ensures
        r@ == a@ + b@ + c@,
{
    let mut out = a.to_owned();
    out.append(b);
    out.append(c);
    out
}

pub open spec fn port_range_fault(range: Seq<u16>) -> Option<FaultView> {
    if range[0] == 0 || range[1] == 0 || range[0] > range[1] {
        Some(
            fault(
                ErrorCode::ConfigInvalid,
                "invalid port_range ["@ + decimal(range[0] as nat) + ", "@ + decimal(
                    range[1] as nat,
                ) + "]"@,
            ),
        )
    } else {
        None
    }
}

/// Both ends of the port range are ports, in order.
pub fn validate_port_range(range: [u16; 2]) -> (r: Result<(), StartupError>)
    ensures
        is_checked(r, port_range_fault(range@)),
{
    let start: u16 = range[0];
    let end: u16 = range[1];
    if start == 0 || end == 0 || start > end {
        let mut out = "invalid port_range [".to_owned();
        push_decimal(&mut out, start as u64);
        out.append(", ");
        push_decimal(&mut out, end as u64);
        out.append("]");
        return Err(StartupError::new(ErrorCode::ConfigInvalid, out));
    }
    Ok(())
}

/// What the multicast address came to when it was looked up.
#[derive(Debug)]
pub enum MulticastLookup {
    /// It could not be looked up, for the given reason.
    Failed(String),
    /// There is no such address.
    NoAddress,
    /// It is an address, but not a multicast one.
    NotMulticast,
    Multicast,
}

pub open spec fn multicast_fault(raw: Seq<char>, lookup: MulticastLookup) -> Option<FaultView> {
    let head = "invalid multicast_addr '"@ + raw + "': "@;
    match lookup {
        MulticastLookup::Failed(e) => Some(fault(ErrorCode::MulticastFailed, head + e@)),
        MulticastLookup::NoAddress => Some(
            fault(ErrorCode::MulticastFailed, head + "no resolved address"@),
        ),
        MulticastLookup::NotMulticast => Some(
            fault(ErrorCode::MulticastFailed, head + "IP is not multicast"@),
        ),
        MulticastLookup::Multicast => None,
    }
}

/// The multicast address is one.
pub fn validate_multicast_addr(raw: &str, lookup: &MulticastLookup) -> (r: Result<(), StartupError>)
    ensures
        is_checked(r, multicast_fault(raw@, *lookup)),
{
    let mut out = text3("invalid multicast_addr '", raw, "': ");
    match lookup {
        MulticastLookup::Failed(e) => {
            out.append(e.as_str());
        },
        MulticastLookup::NoAddress => {
            out.append("no resolved address");
        },
        MulticastLookup::NotMulticast => {
            out.append("IP is not multicast");
        },
        MulticastLookup::Multicast => {
            return Ok(());
        },
    }
    Err(StartupError::new(ErrorCode::MulticastFailed, out))
}

pub open spec fn protocol_fault(raw: Seq<char>) -> Option<FaultView> {
    let p = lowered(trimmed(raw));
    if p == "udp"@ || p == "tcp"@ {
        None
    } else {
        Some(
            fault(
                ErrorCode::ConfigInvalid,
                "invalid connecting.protocol '"@ + p + "': expected 'udp' or 'tcp'"@,
            ),
        )
    }
}

/// The protocol is one that a node speaks.
pub fn validate_protocol(raw: &str) -> (r: Result<(), StartupError>)
    ensures
        is_checked(r, protocol_fault(raw@)),
{
    let p = to_lower(trim(raw).as_str());
    if same(p.as_str(), "udp") || same(p.as_str(), "tcp") {
        return Ok(());
    }
    Err(
        StartupError::new(
            ErrorCode::ConfigInvalid,
            text3("invalid connecting.protocol '", p.as_str(), "': expected 'udp' or 'tcp'"),
        ),
    )
}

pub open spec fn positive_fault(name: Seq<char>, value: u64) -> Option<FaultView> {
    if value == 0 {
        Some(fault(ErrorCode::ConfigInvalid, "invalid "@ + name + ": must be > 0"@))
    } else {
        None
    }
}

/// A setting is not zero.
pub fn validate_positive(name: &str, value: u64) -> (r: Result<(), StartupError>)
    ensures
        is_checked(r, positive_fault(name@, value)),
{
    if value == 0 {
        return Err(
            StartupError::new(ErrorCode::ConfigInvalid, text3("invalid ", name, ": must be > 0")),
        );
    }
    Ok(())
}

/// The entries that are not blank, without white space at their ends; or the
/// first that is no IPv4 address. `faults` says of each entry why it is none.
pub open spec fn outbound_ips(raw: Seq<Seq<char>>, faults: Seq<Option<Seq<char>>>, n: int) -> Result<
    Seq<Seq<char>>,
    FaultView,
>
    decreases n,
{
    if n <= 0 {
        Ok(Seq::empty())
    } else {
        match outbound_ips(raw, faults, n - 1) {
            Err(e) => Err(e),
            Ok(before) => {
                let item = trimmed(raw[n - 1]);
                if item.len() == 0 {
                    Ok(before)
                } else {
                    match faults[n - 1] {
                        Some(e) => Err(
                            fault(
                                ErrorCode::ConfigInvalid,
                                "invalid connecting.multicast_outbound_ip entry '"@ + item
                                    + "': expected IPv4 address, got "@ + e,
                            ),
                        ),
                        None => Ok(before.push(item)),
                    }
                }
            },
        }
    }
}

pub open spec fn opt_texts(v: Seq<Option<String>>) -> Seq<Option<Seq<char>>> {
    v.map_values(|o: Option<String>| opt_text(o))
}

proof fn lemma_outbound_error_stays(
    raw: Seq<Seq<char>>,
    faults: Seq<Option<Seq<char>>>,
    i: int,
    n: int,
)
    requires
        0 <= i <= n,
        outbound_ips(raw, faults, i) is Err,
    ensures
        outbound_ips(raw, faults, n) == outbound_ips(raw, faults, i),
    decreases n,
{
    if i < n {
        lemma_outbound_error_stays(raw, faults, i, n - 1);
    }
}

/// The addresses by which multicast goes out. `faults` says of each entry why
/// it is no IPv4 address, if it is none.
pub fn validate_multicast_outbound_ips(raw: &Vec<String>, faults: &Vec<Option<String>>) -> (r: Result<
    Vec<String>,
    StartupError,
>)
    requires
        raw@.len() == faults@.len(),
    ensures
        match r {
            Ok(ips) => outbound_ips(texts(raw@), opt_texts(faults@), raw@.len() as int) == Ok::<
                Seq<Seq<char>>,
                FaultView,
            >(texts(ips@)),
            Err(e) => outbound_ips(texts(raw@), opt_texts(faults@), raw@.len() as int) == Err::<
                Seq<Seq<char>>,
                FaultView,
            >(e@),
        },
{
    let ghost all = texts(raw@);
    let ghost why = opt_texts(faults@);
    let mut out: Vec<String> = Vec::new();
    let mut i: usize = 0;
    assert(texts(out@) =~= Seq::empty());
    while i < raw.len()
        invariant
            i <= raw@.len() == faults@.len(),
            all == texts(raw@),
            why == opt_texts(faults@),
            outbound_ips(all, why, i as int) == Ok::<Seq<Seq<char>>, FaultView>(texts(out@)),
        decreases raw@.len() - i,
    {
        let item = trim(raw[i].as_str());
        assert(all[i as int] == raw@[i as int]@);
        assert(why[i as int] == opt_text(faults@[i as int]));
        if !item.as_str().is_empty() {
            match &faults[i] {
                Some(e) => {
                    let mut text = text3(
                        "invalid connecting.multicast_outbound_ip entry '",
                        item.as_str(),
                        "': expected IPv4 address, got ",
                    );
                    text.append(e.as_str());
                    proof {
                        lemma_outbound_error_stays(all, why, i + 1, raw@.len() as int);
                    }
                    return Err(StartupError::new(ErrorCode::ConfigInvalid, text));
                },
                None => {},
            }
            assert(texts(out@.push(item)) =~= texts(out@).push(item@));
            out.push(item);
        }
        i = i + 1;
    }
    Ok(out)
}

// ---------------------------------------------------------------------------
// The size of the log

/// The first position in `s` that is no digit, or the length of `s`.
pub open spec fn digits_end(s: Seq<char>) -> int
    decreases s.len(),
{
    if s.len() == 0 || !is_digit(s[0]) {
        0
    } else {
        1 + digits_end(s.drop_first())
    }
}

proof fn lemma_digits_end(s: Seq<char>, i: int)
    requires
        0 <= i <= s.len(),
        forall|j: int| 0 <= j < i ==> is_digit(#[trigger] s[j]),
        i < s.len() ==> !is_digit(s[i]),
    ensures
        digits_end(s) == i,
    decreases s.len(),
{
    if i > 0 {
        assert(is_digit(s[0]));
        assert forall|j: int| 0 <= j < i - 1 implies is_digit(#[trigger] s.drop_first()[j]) by {
            assert(s.drop_first()[j] == s[j + 1]);
        }
        lemma_digits_end(s.drop_first(), i - 1);
    }
}

/// The number of bytes in a unit.
pub open spec fn unit_bytes(unit: Seq<char>) -> Option<u64> {
    if unit == ""@ || unit == "b"@ {
        Some(1)
    } else if unit == "kb"@ || unit == "kib"@ {
        Some(1024)
    } else if unit == "mb"@ || unit == "mib"@ {
        Some(1_048_576)
    } else if unit == "gb"@ || unit == "gib"@ {
        Some(1_073_741_824)
    } else {
        None
    }
}

/// The size that a text writes: a number and a unit.
pub open spec fn log_size(raw: Seq<char>) -> Result<u64, FaultView> {
    let s = trimmed(raw);
    let end = digits_end(s);
    let number = s.take(end);
    let unit = lowered(trimmed(s.skip(end)));
    let head = "invalid log.max_size '"@ + raw + "': "@;
    if s.len() == 0 {
        Err(fault(ErrorCode::ConfigInvalid, "invalid log.max_size: empty value"@))
    } else if number.len() == 0 {
        Err(fault(ErrorCode::ConfigInvalid, head + "missing number"@))
    } else if digits_value(number) > u64::MAX {
        Err(fault(ErrorCode::ConfigInvalid, head + "number too large to fit in target type"@))
    } else if digits_value(number) == 0 {
        Err(fault(ErrorCode::ConfigInvalid, "invalid log.max_size: must be > 0"@))
    } else {
        match unit_bytes(unit) {
            None => Err(
                fault(ErrorCode::ConfigInvalid, head + ("unsupported unit '"@ + unit + "'"@)),
            ),
            Some(k) => if digits_value(number) * k > u64::MAX {
                Err(fault(ErrorCode::ConfigInvalid, head + "value too large"@))
            } else {
                Ok((digits_value(number) * k) as u64)
            },
        }
    }
}

fn log_size_error(raw: &str, what: &str) -> (r: StartupError)
    ensures
        r@ == fault(ErrorCode::ConfigInvalid, "invalid log.max_size '"@ + raw@ + "': "@ + what@),
{
    let mut out = text3("invalid log.max_size '", raw, "': ");
    out.append(what);
    StartupError::new(ErrorCode::ConfigInvalid, out)
}

fn unit_of(unit: &str) -> (r: Option<u64>)
    ensures
        r == unit_bytes(unit@),
{
    if same(unit, "") || same(unit, "b") {
        Some(1)
    } else if same(unit, "kb") || same(unit, "kib") {
        Some(1024)
    } else if same(unit, "mb") || same(unit, "mib") {
        Some(1_048_576)
    } else if same(unit, "gb") || same(unit, "gib") {
        Some(1_073_741_824)
    } else {
        None
    }
}

/// The size that a text writes, in bytes.
pub fn parse_log_size_bytes(raw: &str) -> (r: Result<u64, StartupError>)
    ensures
        match r {
            Ok(n) => log_size(raw@) == Ok::<u64, FaultView>(n),
            Err(e) => log_size(raw@) == Err::<u64, FaultView>(e@),
        },
{
    let s = trim(raw);
    let chars = chars_of(s.as_str());
    let n: usize = chars.len();
    if n == 0 {
        return Err(
            StartupError::new(
                ErrorCode::ConfigInvalid,
                "invalid log.max_size: empty value".to_owned(),
            ),
        );
    }
    let mut end: usize = 0;
    while end < n && '0' <= chars[end] && chars[end] <= '9'
        invariant
            end <= n == chars@.len(),
            forall|j: int| 0 <= j < end ==> is_digit(#[trigger] chars@[j]),
        decreases n - end,
    {
        end = end + 1;
    }
    proof {
        lemma_digits_end(chars@, end as int);
    }
    if end == 0 {
        return Err(log_size_error(raw, "missing number"));
    }
    let number = &chars.as_slice()[0..end];
    assert(number@ =~= s@.take(end as int));
    let value: u64 = match parse_digits(number, u64::MAX) {
        Some(v) => v,
        None => {
            return Err(log_size_error(raw, "number too large to fit in target type"));
        },
    };
    if value == 0 {
        return Err(
            StartupError::new(
                ErrorCode::ConfigInvalid,
                "invalid log.max_size: must be > 0".to_owned(),
            ),
        );
    }
    let rest = slice_of(chars.as_slice(), end, n);
    assert(rest@ =~= s@.skip(end as int));
    let unit = to_lower(trim(rest.as_str()).as_str());
    let multiplier: u64 = match unit_of(unit.as_str()) {
        Some(k) => k,
        None => {
            let what = text3("unsupported unit '", unit.as_str(), "'");
            return Err(log_size_error(raw, what.as_str()));
        },
    };
    match value.checked_mul(multiplier) {
        Some(v) => Ok(v),
        None => Err(log_size_error(raw, "value too large")),
    }
}

// ---------------------------------------------------------------------------
// The configuration

/// The first of several faults.
pub open spec fn first_fault(a: Option<FaultView>, b: Option<FaultView>) -> Option<FaultView> {
    match a {
        Some(_) => a,
        None => b,
    }
}

/// The first fault of a configuration, in the order of the checks.
pub open spec fn config_fault(
    c: Config,
    lookup: MulticastLookup,
    outbound: Seq<Option<Seq<char>>>,
) -> Option<FaultView> {
    first_fault(
        port_range_fault(c.connecting.port_range@),
        first_fault(
            multicast_fault(c.connecting.multicast_addr@, lookup),
            first_fault(
                protocol_fault(c.connecting.protocol@),
                first_fault(
                    positive_fault("cache_ttl_ms"@, c.services.cache_ttl_ms),
                    first_fault(
                        positive_fault("collector_interval_ms"@, c.services.collector_interval_ms),
                        first_fault(
                            positive_fault("heartbeat_interval"@, c.connecting.heartbeat_interval),
                            first_fault(
                                positive_fault(
                                    "connection_idle_timeout"@,
                                    c.connecting.connection_idle_timeout,
                                ),
                                first_fault(
                                    positive_fault(
                                        "max_connections"@,
                                        c.connecting.max_connections as u64,
                                    ),
                                    first_fault(
                                        positive_fault(
                                            "discover_wait_secs"@,
                                            c.connecting.discover_wait_secs,
                                        ),
                                        first_fault(
                                            positive_fault(
                                                "multicast_retry_limit"@,
                                                c.connecting.multicast_retry_limit as u64,
                                            ),
                                            first_fault(
                                                match outbound_ips(
                                                    texts(c.connecting.multicast_outbound_ip@),
                                                    outbound,
                                                    c.connecting.multicast_outbound_ip@.len() as int,
                                                ) {
                                                    Ok(_) => None,
                                                    Err(e) => Some(e),
                                                },
                                                match log_size(c.log.max_size@) {
                                                    Ok(_) => None,
                                                    Err(e) => Some(e),
                                                },
                                            ),
                                        ),
                                    ),
                                ),
                            ),
                        ),
                    ),
                ),
            ),
        ),
    )
}

/// Refuses a configuration that a node cannot run with. `lookup` is what the
/// multicast address came to, and `outbound` says of each outbound address why
/// it is no IPv4 address, if it is none.
pub fn validate_config(config: &Config, lookup: &MulticastLookup, outbound: &Vec<Option<String>>) -> (r:
    Result<(), StartupError>)
    requires
        outbound@.len() == config.connecting.multicast_outbound_ip@.len(),
    ensures
        is_checked(r, config_fault(*config, *lookup, opt_texts(outbound@))),
{
    match validate_port_range(config.connecting.port_range) {
        Ok(()) => {},
        Err(e) => {
            return Err(e);
        },
    }
    match validate_multicast_addr(config.connecting.multicast_addr.as_str(), lookup) {
        Ok(()) => {},
        Err(e) => {
            return Err(e);
        },
    }
    match validate_protocol(config.connecting.protocol.as_str()) {
        Ok(()) => {},
        Err(e) => {
            return Err(e);
        },
    }
    match validate_positive("cache_ttl_ms", config.services.cache_ttl_ms) {
        Ok(()) => {},
        Err(e) => {
            return Err(e);
        },
    }
    match validate_positive("collector_interval_ms", config.services.collector_interval_ms) {
        Ok(()) => {},
        Err(e) => {
            return Err(e);
        },
    }
    match validate_positive("heartbeat_interval", config.connecting.heartbeat_interval) {
        Ok(()) => {},
        Err(e) => {
            return Err(e);
        },
    }
    match validate_positive("connection_idle_timeout", config.connecting.connection_idle_timeout) {
        Ok(()) => {},
        Err(e) => {
            return Err(e);
        },
    }
    match validate_positive("max_connections", config.connecting.max_connections as u64) {
        Ok(()) => {},
        Err(e) => {
            return Err(e);
        },
    }
    match validate_positive("discover_wait_secs", config.connecting.discover_wait_secs) {
        Ok(()) => {},
        Err(e) => {
            return Err(e);
        },
    }
    match validate_positive("multicast_retry_limit", config.connecting.multicast_retry_limit as u64) {
        Ok(()) => {},
        Err(e) => {
            return Err(e);
        },
    }
    match validate_multicast_outbound_ips(&config.connecting.multicast_outbound_ip, outbound) {
        Ok(_) => {},
        Err(e) => {
            return Err(e);
        },
    }
    match parse_log_size_bytes(config.log.max_size.as_str()) {
        Ok(_) => Ok(()),
        Err(e) => Err(e),
    }
}

// ---------------------------------------------------------------------------
// Ports

/// The ports of a range in turn, from `offset` on and round to the start.
pub open spec fn candidates(start: u16, end: u16, offset: int) -> Seq<u16> {
    let count = end - start + 1;
    Seq::new(count as nat, |i: int| (start + (offset + i) % count) as u16)
}

/// The ports of a range in the order in which they are tried.
pub open spec fn tried_ports(range: Seq<u16>, nanos: u32) -> Seq<u16> {
    candidates(range[0], range[1], nanos as int % (range[1] - range[0] + 1))
}

/// The ports of a range in the order in which they are tried. The start is
/// picked by the given number, such as the nanoseconds of a clock.
pub fn port_candidates(range: [u16; 2], nanos: u32) -> (r: Vec<u16>)
    requires
        range@[0] <= range@[1],
    ensures
        r@ == tried_ports(range@, nanos),
{
    let start: u16 = range[0];
    let end: u16 = range[1];
    let count: u32 = (end - start) as u32 + 1;
    let offset: u32 = nanos % count;
    let mut out: Vec<u16> = Vec::new();
    let mut i: u32 = 0;
    while i < count
        invariant
            i <= count <= 65536,
            offset < count,
            count == end - start + 1,
            start <= end,
            out@ == candidates(start, end, offset as int).take(i as int),
        decreases count - i,
    {
        let k: u32 = (offset + i) % count;
        out.push(start + k as u16);
        i = i + 1;
        assert(out@ =~= candidates(start, end, offset as int).take(i as int));
    }
    assert(candidates(start, end, offset as int).take(i as int) =~= candidates(
        start,
        end,
        offset as int,
    ));
    out
}

/// Every port of the range is a candidate, exactly once, whatever the start.
pub proof fn law_candidates_are_the_range(start: u16, end: u16, offset: int)
    requires
        start <= end,
        0 <= offset < end - start + 1,
    ensures
        candidates(start, end, offset).no_duplicates(),
        forall|p: u16| candidates(start, end, offset).contains(p) <==> start <= p <= end,
{
    let count = end - start + 1;
    let c = candidates(start, end, offset);
    assert forall|i: int| 0 <= i < count implies c[i] == start + (if offset + i < count {
        offset + i
    } else {
        offset + i - count
    }) by {
        if offset + i < count {
            vstd::arithmetic::div_mod::lemma_small_mod((offset + i) as nat, count as nat);
        } else {
            vstd::arithmetic::div_mod::lemma_mod_sub_multiples_vanish(offset + i, count);
            vstd::arithmetic::div_mod::lemma_small_mod((offset + i - count) as nat, count as nat);
        }
    }
    assert forall|p: u16| c.contains(p) <==> start <= p <= end by {
        if start <= p <= end {
            let d = p - start;
            let i = if d >= offset {
                d - offset
            } else {
                d - offset + count
            };
            assert(c[i] == p);
        }
        if c.contains(p) {
            let i = choose|i: int| 0 <= i < c.len() && c[i] == p;
            assert(c[i] == p);
        }
    }
}

/// Which kind of port is picked.
#[derive(Debug, Clone, Copy, PartialEq, Eq, Structural)]
pub enum PortKind {
    Udp,
    Tcp,
}

/// The message where the configured port is taken by the node itself.
pub open spec fn conflict_message(kind: PortKind, port: u16) -> Seq<char> {
    match kind {
        PortKind::Udp => "configured udp_port "@ + decimal(port as nat)
            + " conflicts with another UDP port"@,
        PortKind::Tcp => "configured tcp_port "@ + decimal(port as nat)
            + " conflicts with udp_port"@,
    }
}

/// The message where the configured port is not free.
pub open spec fn unavailable_message(kind: PortKind, port: u16) -> Seq<char> {
    match kind {
        PortKind::Udp => "configured udp_port "@ + decimal(port as nat) + " is not available"@,
        PortKind::Tcp => "configured tcp_port "@ + decimal(port as nat) + " is not available"@,
    }
}

/// The message where no port of the range is free.
pub open spec fn exhausted_message(kind: PortKind, start: u16, end: u16) -> Seq<char> {
    match kind {
        PortKind::Udp => "all UDP ports exhausted in range ["@ + decimal(start as nat) + ", "@
            + decimal(end as nat) + "]"@,
        PortKind::Tcp => "all TCP ports exhausted in range ["@ + decimal(start as nat) + ", "@
            + decimal(end as nat) + "]"@,
    }
}

fn port_message(head: &str, port: u16, tail: &str) -> (r: String)
    ensures
        r@ == head@ + decimal(port as nat) + tail@,
{
    let mut out = head.to_owned();
    push_decimal(&mut out, port as u64);
    out.append(tail);
    out
}

fn range_message(head: &str, start: u16, end: u16) -> (r: String)
    ensures
        r@ == head@ + decimal(start as nat) + ", "@ + decimal(end as nat) + "]"@,
{
    let mut out = head.to_owned();
    push_decimal(&mut out, start as u64);
    out.append(", ");
    push_decimal(&mut out, end as u64);
    out.append("]");
    out
}

/// Whether a port was tried and not free, or is not to be used.
pub open spec fn passed_over<B: Fn(u16) -> bool>(can_bind: B, exclude: Option<u16>, port: u16) -> bool {
    exclude == Some(port) || call_ensures(can_bind, (port,), false)
}

/// Whether `r` is the port to use, by what `can_bind` may return: the
/// configured one or, where that is zero, the first candidate that is free.
pub open spec fn picked<B: Fn(u16) -> bool>(
    kind: PortKind,
    range: Seq<u16>,
    requested: u16,
    exclude: Option<u16>,
    tried: Seq<u16>,
    can_bind: B,
    r: Result<u16, StartupError>,
) -> bool {
    if requested != 0 {
        if exclude == Some(requested) {
            r matches Err(e) && e@ == fault(
                ErrorCode::PortExhausted,
                conflict_message(kind, requested),
            )
        } else {
            match r {
                Ok(p) => p == requested && call_ensures(can_bind, (requested,), true),
                Err(e) => call_ensures(can_bind, (requested,), false) && e@ == fault(
                    ErrorCode::PortExhausted,
                    unavailable_message(kind, requested),
                ),
            }
        }
    } else {
        match r {
            Ok(p) => exclude != Some(p) && call_ensures(can_bind, (p,), true) && exists|k: int|
                #![trigger tried[k]]
                0 <= k < tried.len() && tried[k] == p && forall|j: int|
                    #![trigger tried[j]]
                    0 <= j < k ==> passed_over(can_bind, exclude, tried[j]),
            Err(e) => e@ == fault(
                ErrorCode::PortExhausted,
                exhausted_message(kind, range[0], range[1]),
            ) && forall|j: int|
                #![trigger tried[j]]
                0 <= j < tried.len() ==> passed_over(can_bind, exclude, tried[j]),
        }
    }
}

fn pick_port<B: Fn(u16) -> bool>(
    kind: PortKind,
    range: [u16; 2],
    requested: u16,
    exclude: Option<u16>,
    nanos: u32,
    can_bind: &B,
) -> (r: Result<u16, StartupError>)
    requires
        requested == 0 ==> range@[0] <= range@[1],
        forall|p: u16| #[trigger] call_requires(*can_bind, (p,)),
    ensures
        picked(
            kind,
            range@,
            requested,
            exclude,
            tried_ports(range@, nanos),
            *can_bind,
            r,
        ),
{
    if requested != 0 {
        let conflict = match exclude {
            Some(p) => p == requested,
            None => false,
        };
        if conflict {
            let text = match kind {
                PortKind::Udp => port_message(
                    "configured udp_port ",
                    requested,
                    " conflicts with another UDP port",
                ),
                PortKind::Tcp => port_message(
                    "configured tcp_port ",
                    requested,
                    " conflicts with udp_port",
                ),
            };
            return Err(StartupError::new(ErrorCode::PortExhausted, text));
        }
        if can_bind(requested) {
            return Ok(requested);
        }
        let text = match kind {
            PortKind::Udp => port_message("configured udp_port ", requested, " is not available"),
            PortKind::Tcp => port_message("configured tcp_port ", requested, " is not available"),
        };
        return Err(StartupError::new(ErrorCode::PortExhausted, text));
    }
    let tried = port_candidates(range, nanos);
    let mut i: usize = 0;
    while i < tried.len()
        invariant
            i <= tried@.len(),
            requested == 0,
            tried@ == tried_ports(range@, nanos),
            forall|p: u16| #[trigger] call_requires(*can_bind, (p,)),
            forall|j: int|
                #![trigger tried@[j]]
                0 <= j < i ==> passed_over(*can_bind, exclude, tried@[j]),
        decreases tried@.len() - i,
    {
        let port: u16 = tried[i];
        let skip = match exclude {
            Some(p) => p == port,
            None => false,
        };
        if !skip {
            if can_bind(port) {
                assert(tried@[i as int] == port);
                return Ok(port);
            }
        }
        i = i + 1;
    }
    let text = match kind {
        PortKind::Udp => range_message("all UDP ports exhausted in range [", range[0], range[1]),
        PortKind::Tcp => range_message("all TCP ports exhausted in range [", range[0], range[1]),
    };
    Err(StartupError::new(ErrorCode::PortExhausted, text))
}

/// The UDP port to use.
pub fn pick_udp_port<B: Fn(u16) -> bool>(
    range: [u16; 2],
    requested: u16,
    nanos: u32,
    can_bind: &B,
) -> (r: Result<u16, StartupError>)
    requires
        requested == 0 ==> range@[0] <= range@[1],
        forall|p: u16| #[trigger] call_requires(*can_bind, (p,)),
    ensures
        picked(
            PortKind::Udp,
            range@,
            requested,
            None,
            tried_ports(range@, nanos),
            *can_bind,
            r,
        ),
{
    pick_udp_port_excluding(range, requested, None, nanos, can_bind)
}

/// The UDP port to use, other than an excluded one.
pub fn pick_udp_port_excluding<B: Fn(u16) -> bool>(
    range: [u16; 2],
    requested: u16,
    exclude: Option<u16>,
    nanos: u32,
    can_bind: &B,
) -> (r: Result<u16, StartupError>)
    requires
        requested == 0 ==> range@[0] <= range@[1],
        forall|p: u16| #[trigger] call_requires(*can_bind, (p,)),
    ensures
        picked(
            PortKind::Udp,
            range@,
            requested,
            exclude,
            tried_ports(range@, nanos),
            *can_bind,
            r,
        ),
{
    pick_port(PortKind::Udp, range, requested, exclude, nanos, can_bind)
}

/// The TCP port to use, other than an excluded one.
pub fn pick_tcp_port<B: Fn(u16) -> bool>(
    range: [u16; 2],
    requested: u16,
    exclude: Option<u16>,
    nanos: u32,
    can_bind: &B,
) -> (r: Result<u16, StartupError>)
    requires
        requested == 0 ==> range@[0] <= range@[1],
        forall|p: u16| #[trigger] call_requires(*can_bind, (p,)),
    ensures
        picked(
            PortKind::Tcp,
            range@,
            requested,
            exclude,
            tried_ports(range@, nanos),
            *can_bind,
            r,
        ),
{
    pick_port(PortKind::Tcp, range, requested, exclude, nanos, can_bind)
}

// ---------------------------------------------------------------------------
// Texts and names

/// The configured library path without white space, if it is not blank.
pub open spec fn configured_path(path: Option<Seq<char>>) -> Option<Seq<char>> {
    match path {
        Some(p) => if trimmed(p).len() == 0 {
            None
        } else {
            Some(trimmed(p))
        },
        None => None,
    }
}

/// The message where the NVIDIA library at a path cannot be used.
pub open spec fn nvml_message(path: Option<Seq<char>>) -> Seq<char> {
    match configured_path(path) {
        Some(p) =>
            "NVML collector init failed while loading configured runtime.nvml_lib_path='"@ + p
            + "'"@,
        None =>
            "NVML collector init failed while loading default libnvidia-ml.so; configure [runtime].nvml_lib_path if this host only provides a versioned NVML library"@,
    }
}

/// The hint where the NVIDIA library at a path cannot be used.
pub open spec fn nvml_hint(path: Option<Seq<char>>) -> Seq<char> {
    match configured_path(path) {
        Some(_) =>
            "Verify the configured NVML library path exists, is readable by the gpustat4cluster service user, and is a real NVIDIA runtime library, not the CUDA stubs library."@,
        None =>
            "This host may only provide a versioned NVML library such as /usr/lib/x86_64-linux-gnu/libnvidia-ml.so.1. Set [runtime].nvml_lib_path in /etc/gpustat4cluster/server.toml, then run: systemctl reset-failed gpustat4cluster-server && systemctl restart gpustat4cluster-server. Do not use CUDA stubs/libnvidia-ml.so."@,
    }
}

/// The message where the NVIDIA library cannot be used.
pub fn nvml_startup_error_message(nvml_lib_path: Option<&str>) -> (r: String)
    ensures
        r@ == nvml_message(opt_str(nvml_lib_path)),
{
    match crate::server::nvml::library_path(nvml_lib_path) {
        Some(p) => text3(
            "NVML collector init failed while loading configured runtime.nvml_lib_path='",
            p.as_str(),
            "'",
        ),
        None =>
            "NVML collector init failed while loading default libnvidia-ml.so; configure [runtime].nvml_lib_path if this host only provides a versioned NVML library".to_owned(),
    }
}

/// The hint where the NVIDIA library cannot be used.
pub fn nvml_startup_hint(nvml_lib_path: Option<&str>) -> (r: String)
    ensures
        r@ == nvml_hint(opt_str(nvml_lib_path)),
{
    match crate::server::nvml::library_path(nvml_lib_path) {
        Some(_) =>
            "Verify the configured NVML library path exists, is readable by the gpustat4cluster service user, and is a real NVIDIA runtime library, not the CUDA stubs library.".to_owned(),
        None =>
            "This host may only provide a versioned NVML library such as /usr/lib/x86_64-linux-gnu/libnvidia-ml.so.1. Set [runtime].nvml_lib_path in /etc/gpustat4cluster/server.toml, then run: systemctl reset-failed gpustat4cluster-server && systemctl restart gpustat4cluster-server. Do not use CUDA stubs/libnvidia-ml.so.".to_owned(),
    }
}

/// Which collector a node reads from.
#[derive(Debug, Clone, Copy, PartialEq, Eq, Structural)]
pub enum CollectorKind {
    /// A made-up inventory from a file.
    Test,
    Nvml,
}

/// Picks the collector. A made-up inventory is for servers that are built for
/// it, and so are its counters.
pub fn collector_kind(debug: bool, inventory: Option<&str>, runtime: Option<&str>) -> (r: Result<
    CollectorKind,
    StartupError,
>)
    ensures
        match r {
            Ok(CollectorKind::Test) => debug && inventory is Some,
            Ok(CollectorKind::Nvml) => inventory is None && (debug || runtime is None),
            Err(e) => !debug && (inventory is Some || runtime is Some) && e@ == fault(
                ErrorCode::ConfigInvalid,
                "runtime.test_inventory_path/runtime.test_runtime_path require building the server with --features debug"@,
            ),
        },
{
    if debug {
        if inventory.is_some() {
            return Ok(CollectorKind::Test);
        }
    } else if inventory.is_some() || runtime.is_some() {
        return Err(
            StartupError::new(
                ErrorCode::ConfigInvalid,
                "runtime.test_inventory_path/runtime.test_runtime_path require building the server with --features debug".to_owned(),
            ),
        );
    }
    Ok(CollectorKind::Nvml)
}

/// The error where the collector cannot be built.
pub fn collector_unavailable(code: ErrorCode, nvml_lib_path: Option<&str>) -> (r: StartupError)
    ensures
        r@ == (FaultView {
            code,
            message: nvml_message(opt_str(nvml_lib_path)),
            hint: Some(nvml_hint(opt_str(nvml_lib_path))),
        }),
{
    StartupError::new(code, nvml_startup_error_message(nvml_lib_path)).with_hint(
        nvml_startup_hint(nvml_lib_path),
    )
}

/// The first of several texts that is not blank, without white space at its
/// ends.
pub open spec fn first_name(sources: Seq<Option<Seq<char>>>) -> Seq<char>
    decreases sources.len(),
{
    if sources.len() == 0 {
        "unknown-host"@
    } else {
        match configured_path(sources[0]) {
            Some(name) => name,
            None => first_name(sources.drop_first()),
        }
    }
}

/// The name of the node: the first source that is not blank. The sources are
/// the environment, the kernel and the system configuration.
pub fn detect_hostname(sources: &Vec<Option<String>>) -> (r: String)
    ensures
        r@ == first_name(opt_texts(sources@)),
{
    let ghost all = opt_texts(sources@);
    let mut i: usize = 0;
    assert(all.skip(0) =~= all);
    while i < sources.len()
        invariant
            i <= sources@.len(),
            all == opt_texts(sources@),
            first_name(all) == first_name(all.skip(i as int)),
        decreases sources@.len() - i,
    {
        assert(all.skip(i as int)[0] == opt_text(sources@[i as int]));
        assert(all.skip(i as int).drop_first() =~= all.skip(i + 1));
        match &sources[i] {
            Some(s) => {
                let name = trim(s.as_str());
                if !name.as_str().is_empty() {
                    return name;
                }
            },
            None => {},
        }
        i = i + 1;
    }
    "unknown-host".to_owned()
}

/// The path of the configuration: from the environment, or the default.
pub fn config_path(from_env: Option<String>) -> (r: String)
    ensures
        r@ == (match from_env {
            Some(p) => p@,
            None => DEFAULT_CONFIG_PATH@,
        }),
{
    match from_env {
        Some(p) => p,
        None => DEFAULT_CONFIG_PATH.to_owned(),
    }
}

/// A multicast failure, with advice where the route is missing: network
/// unreachable (101) or no such device (19).
pub fn multicast_route_hint(message: String, os_error: Option<i32>) -> (r: String)
    ensures
        r@ == (if os_error == Some(101i32) || os_error == Some(19i32) {
            message@
                + "; multicast route/interface is unavailable, configure [connecting].multicast_outbound_ip with one or more local IPv4 addresses"@
        } else {
            message@
        }),
{
    let missing = match os_error {
        Some(n) => n == 101 || n == 19,
        None => false,
    };
    if missing {
        let mut out = message;
        out.append(
            "; multicast route/interface is unavailable, configure [connecting].multicast_outbound_ip with one or more local IPv4 addresses",
        );
        out
    } else {
        message
    }
}

// ---------------------------------------------------------------------------
// Announcements

/// The announcement of a node.
pub fn discovery_announce(hostname: &str, ip: &str, udp_port: u16, tcp_port: u16) -> (r:
    DiscoveryAnnounce)
    ensures
        r.version == PROTOCOL_VERSION,
        r.hostname@ == hostname@,
        r.ip@ == ip@,
        r.port == udp_port,
        r.tcp_port == Some(tcp_port),
        r.udp_port == Some(udp_port),
        r.kcp_port is None,
        r.ttl is None,
        r.load is None,
        r.degraded == Some(false),
{
    DiscoveryAnnounce {
        version: PROTOCOL_VERSION,
        hostname: hostname.to_owned(),
        ip: ip.to_owned(),
        port: udp_port,
        tcp_port: Some(tcp_port),
        kcp_port: None,
        udp_port: Some(udp_port),
        ttl: None,
        load: None,
        degraded: Some(false),
    }
}

/// What a node does after it has tried to announce itself everywhere.
#[derive(Debug, Clone, Copy, PartialEq, Eq, Structural)]
pub enum AnnounceNext {
    /// It was sent somewhere: done.
    Done,
    /// Wait, then make the attempt with this number.
    Retry(u32),
    /// The limit is reached.
    GiveUp,
}

/// The first attempt to announce a node: none if the limit is zero.
pub fn first_announce(retry_limit: u32) -> (r: AnnounceNext)
    ensures
        r == (if retry_limit >= 1 {
            AnnounceNext::Retry(1)
        } else {
            AnnounceNext::GiveUp
        }),
{
    if retry_limit >= 1 {
        AnnounceNext::Retry(1)
    } else {
        AnnounceNext::GiveUp
    }
}

/// What follows attempt `attempt`, in which the announcement was sent over at
/// least one interface or over none.
pub fn after_announce(attempt: u32, retry_limit: u32, sent_any: bool) -> (r: AnnounceNext)
    ensures
        r == (if sent_any {
            AnnounceNext::Done
        } else if attempt < retry_limit {
            AnnounceNext::Retry((attempt + 1) as u32)
        } else {
            AnnounceNext::GiveUp
        }),
{
    if sent_any {
        AnnounceNext::Done
    } else if attempt < retry_limit {
        AnnounceNext::Retry(attempt + 1)
    } else {
        AnnounceNext::GiveUp
    }
}

/// The addresses that are announced, one per interface: the outbound addresses,
/// or the inferred one where none is configured.
pub fn announce_ips(outbound: &Vec<String>, inferred: &str) -> (r: Vec<String>)
    ensures
        texts(r@) == (if outbound@.len() == 0 {
            seq![inferred@]
        } else {
            texts(outbound@)
        }),
{
    let mut out: Vec<String> = Vec::new();
    if outbound.len() == 0 {
        out.push(inferred.to_owned());
        assert(texts(out@) =~= seq![inferred@]);
        return out;
    }
    let mut i: usize = 0;
    while i < outbound.len()
        invariant
            i <= outbound@.len(),
            texts(out@) == texts(outbound@).take(i as int),
        decreases outbound@.len() - i,
    {
        let ip = outbound[i].clone();
        assert(texts(out@.push(ip)) =~= texts(out@).push(ip@));
        out.push(ip);
        i = i + 1;
        assert(texts(out@) =~= texts(outbound@).take(i as int));
    }
    assert(texts(outbound@).take(i as int) =~= texts(outbound@));
    out
}

/// The address that a node gives for itself: its first outbound address, or
/// the inferred one.
pub fn own_ip(outbound: &Vec<String>, inferred: &str) -> (r: String)
    ensures
        r@ == (if outbound@.len() > 0 {
            outbound@[0]@
        } else {
            inferred@
        }),
{
    if outbound.len() > 0 {
        outbound[0].clone()
    } else {
        inferred.to_owned()
    }
}

/// How long the background refresh sleeps after a round that took `elapsed_ns`:
/// for the rest of the interval, which is at least a millisecond.
pub fn refresh_pause_ns(collector_interval_ms: u64, elapsed_ns: u128) -> (r: u128)
    ensures
        ({
            let interval = (if collector_interval_ms < 1 {
                1
            } else {
                collector_interval_ms as int
            }) * 1_000_000;
            r == if elapsed_ns < interval {
                interval - elapsed_ns
            } else {
                0
            }
        }),
{
    let interval: u128 = if collector_interval_ms < 1 {
        1_000_000
    } else {
        collector_interval_ms as u128 * 1_000_000
    };
    if elapsed_ns < interval {
        interval - elapsed_ns
    } else {
        0
    }
}

} // verus!
