//! Control messages: handshake, query and discovery, and their JSON form.

use vstd::prelude::*;
use crate::common::error::ErrorCode;
use crate::common::frame::PROTOCOL_VERSION;
use crate::text::{decimal, push_decimal};

verus! {

/// Whether a peer speaks this version of the protocol.
#[derive(Debug, Clone, Copy, PartialEq, Eq, Structural)]
pub enum VersionCheck {
    Matched,
    Mismatch { expected: u8, got: u8 },
}

/// Compares the version of a peer with the version spoken here.
pub fn check_version(version: u8) -> (r: VersionCheck)
    ensures
        r == (if version == PROTOCOL_VERSION {
            VersionCheck::Matched
        } else {
            VersionCheck::Mismatch { expected: PROTOCOL_VERSION, got: version }
        }),
{
    if version == PROTOCOL_VERSION {
        VersionCheck::Matched
    } else {
        VersionCheck::Mismatch { expected: PROTOCOL_VERSION, got: version }
    }
}

/// Accepts the version spoken here and refuses any other.
pub fn validate_protocol_version(version: u8) -> (r: Result<(), ErrorCode>)
    ensures
        r == (if version == PROTOCOL_VERSION {
            Ok::<(), ErrorCode>(())
        } else {
            Err::<(), ErrorCode>(ErrorCode::ProtocolVersionMismatch)
        }),
{
    match check_version(version) {
        VersionCheck::Matched => Ok(()),
        VersionCheck::Mismatch { .. } => Err(ErrorCode::ProtocolVersionMismatch),
    }
}

/// What a node says of itself in a handshake.
#[derive(Debug, Clone, PartialEq, Eq)]
pub struct HandshakeInfo {
    pub version: u8,
    pub hostname: String,
    pub gpu_num: u8,
    pub payload_len: u16,
}

impl HandshakeInfo {
    /// The handshake of the current protocol version.
    pub fn current(hostname: String, gpu_num: u8, payload_len: u16) -> (r: HandshakeInfo)
        ensures
            r == (HandshakeInfo { version: PROTOCOL_VERSION, hostname, gpu_num, payload_len }),
    {
        HandshakeInfo { version: PROTOCOL_VERSION, hostname, gpu_num, payload_len }
    }

    /// Refuses a handshake of another protocol version.
    pub fn validate(&self) -> (r: Result<(), ErrorCode>)
        ensures
            r == (if self.version == PROTOCOL_VERSION {
                Ok::<(), ErrorCode>(())
            } else {
                Err::<(), ErrorCode>(ErrorCode::ProtocolVersionMismatch)
            }),
    {
        validate_protocol_version(self.version)
    }
}

/// A request for the runtime part. The node sends the id back.
#[derive(Debug, Clone, Copy, PartialEq, Eq, Structural)]
pub struct QueryRequest {
    pub version: u8,
    pub request_id: u64,
}

/// How a query went.
#[derive(Debug, Clone, Copy, PartialEq, Eq, Structural)]
pub enum ResponseStatus {
    Success,
    Error,
}

/// The answer to a query that carries no runtime part.
#[derive(Debug, Clone, Copy, PartialEq, Eq, Structural)]
pub struct QueryResponse {
    pub version: u8,
    pub request_id: u64,
    pub status: ResponseStatus,
    /// The reason, where the status is an error.
    pub error: Option<ErrorCode>,
}

impl QueryResponse {
    /// A good answer.
    pub fn ok(request_id: u64) -> (r: QueryResponse)
        ensures
            r == (QueryResponse {
                version: PROTOCOL_VERSION,
                request_id,
                status: ResponseStatus::Success,
                error: None,
            }),
    {
        QueryResponse {
            version: PROTOCOL_VERSION,
            request_id,
            status: ResponseStatus::Success,
            error: None,
        }
    }

    /// An answer that carries an error.
    pub fn error(request_id: u64, error: ErrorCode) -> (r: QueryResponse)
        ensures
            r == (QueryResponse {
                version: PROTOCOL_VERSION,
                request_id,
                status: ResponseStatus::Error,
                error: Some(error),
            }),
    {
        QueryResponse {
            version: PROTOCOL_VERSION,
            request_id,
            status: ResponseStatus::Error,
            error: Some(error),
        }
    }
}

/// The first message of a client.
#[derive(Debug, Clone, Copy, PartialEq, Eq, Structural)]
pub struct HandshakeRequest {
    pub version: u8,
}

impl HandshakeRequest {
    /// The request of the current protocol version.
    pub fn current() -> (r: HandshakeRequest)
        ensures
            r.version == PROTOCOL_VERSION,
    {
        HandshakeRequest { version: PROTOCOL_VERSION }
    }

    /// Refuses a request of another protocol version.
    pub fn validate(&self) -> (r: Result<(), ErrorCode>)
        ensures
            r == (if self.version == PROTOCOL_VERSION {
                Ok::<(), ErrorCode>(())
            } else {
                Err::<(), ErrorCode>(ErrorCode::ProtocolVersionMismatch)
            }),
    {
        validate_protocol_version(self.version)
    }
}

/// The message by which a client looks for nodes.
#[derive(Debug, Clone, Copy, PartialEq, Eq, Structural)]
pub struct DiscoveryQuery {
    pub version: u8,
}

/// The message by which a node makes itself known.
#[derive(Debug, Clone, PartialEq, Eq)]
pub struct DiscoveryAnnounce {
    pub version: u8,
    pub hostname: String,
    pub ip: String,
    pub port: u16,
    /// The TCP port; older nodes leave it out and mean `port`.
    pub tcp_port: Option<u16>,
    pub kcp_port: Option<u16>,
    /// The UDP port; older nodes leave it out and mean `port`.
    pub udp_port: Option<u16>,
    /// For how many seconds the announcement holds.
    pub ttl: Option<u16>,
    /// The load in percent.
    pub load: Option<u8>,
    pub degraded: Option<bool>,
}

// ---------------------------------------------------------------------------
// JSON

/// A digit in base sixteen.
pub open spec fn hex_digit(n: int) -> char {
    if n < 10 {
        (0x30 + n) as char
    } else {
        (0x57 + n) as char
    }
}

/// A character in a JSON string literal: quotes, backslashes and control
/// characters are escaped.
pub open spec fn json_char(c: char) -> Seq<char> {
    if c == '"' || c == '\\' {
        seq!['\\', c]
    } else if c == '\x08' {
        seq!['\\', 'b']
    } else if c == '\t' {
        seq!['\\', 't']
    } else if c == '\n' {
        seq!['\\', 'n']
    } else if c == '\x0c' {
        seq!['\\', 'f']
    } else if c == '\r' {
        seq!['\\', 'r']
    } else if (c as u32) < 0x20 {
        seq!['\\', 'u', '0', '0', hex_digit(c as int / 16), hex_digit(c as int % 16)]
    } else {
        seq![c]
    }
}

/// The characters of a JSON string literal.
pub open spec fn json_chars(s: Seq<char>) -> Seq<char>
    decreases s.len(),
{
    if s.len() == 0 {
        Seq::empty()
    } else {
        json_chars(s.drop_last()) + json_char(s.last())
    }
}

/// The JSON string literal for a text.
pub open spec fn json_string(s: Seq<char>) -> Seq<char> {
    seq!['"'] + json_chars(s) + seq!['"']
}

/// `serde_json::to_string` on a `str`: the JSON string literal, the text in
/// quotes with its special characters escaped.
#[verifier::external_body]
pub(crate) fn json_string_of(s: &str) -> (r: String)
    ensures
        r@ == json_string(s@),
{
    match serde_json::to_string(s) {
        Ok(text) => text,
        Err(err) => err.to_string(),
    }
}

/// A number or `null`.
pub open spec fn json_opt_number(n: Option<nat>) -> Seq<char> {
    match n {
        Some(v) => decimal(v),
        None => "null"@,
    }
}

/// A truth value or `null`.
pub open spec fn json_opt_bool(b: Option<bool>) -> Seq<char> {
    match b {
        Some(true) => "true"@,
        Some(false) => "false"@,
        None => "null"@,
    }
}

fn push_opt_number(out: &mut String, n: Option<u64>)
    ensures
        final(out)@ == old(out)@ + json_opt_number(
            match n {
                Some(v) => Some(v as nat),
                None => None,
            },
        ),
{
    match n {
        Some(v) => push_decimal(out, v),
        None => out.append("null"),
    }
}

fn push_opt_bool(out: &mut String, b: Option<bool>)
    ensures
        final(out)@ == old(out)@ + json_opt_bool(b),
{
    match b {
        Some(true) => out.append("true"),
        Some(false) => out.append("false"),
        None => out.append("null"),
    }
}

impl HandshakeRequest {
    pub open spec fn spec_json(self) -> Seq<char> {
        "{\"version\":"@ + decimal(self.version as nat) + "}"@
    }

    /// The JSON form of this message.
    pub fn to_json(&self) -> (r: String)
        ensures
            r@ == self.spec_json(),
    {
        let mut out = "{\"version\":".to_owned();
        push_decimal(&mut out, self.version as u64);
        out.append("}");
        out
    }
}

impl DiscoveryQuery {
    pub open spec fn spec_json(self) -> Seq<char> {
        "{\"version\":"@ + decimal(self.version as nat) + "}"@
    }

    /// The JSON form of this message.
    pub fn to_json(&self) -> (r: String)
        ensures
            r@ == self.spec_json(),
    {
        let mut out = "{\"version\":".to_owned();
        push_decimal(&mut out, self.version as u64);
        out.append("}");
        out
    }
}

impl QueryRequest {
    pub open spec fn spec_json(self) -> Seq<char> {
        "{\"version\":"@ + decimal(self.version as nat) + ",\"request_id\":"@ + decimal(
            self.request_id as nat,
        ) + "}"@
    }

    /// The JSON form of this message.
    pub fn to_json(&self) -> (r: String)
        ensures
            r@ == self.spec_json(),
    {
        let mut out = "{\"version\":".to_owned();
        push_decimal(&mut out, self.version as u64);
        out.append(",\"request_id\":");
        push_decimal(&mut out, self.request_id);
        out.append("}");
        out
    }
}

impl ResponseStatus {
    pub open spec fn spec_name(self) -> Seq<char> {
        match self {
            ResponseStatus::Success => "Ok"@,
            ResponseStatus::Error => "Error"@,
        }
    }

    /// The name of this status in JSON.
    pub fn name(self) -> (r: &'static str)
        ensures
            r@ == self.spec_name(),
    {
        match self {
            ResponseStatus::Success => "Ok",
            ResponseStatus::Error => "Error",
        }
    }
}

impl QueryResponse {
    pub open spec fn spec_json(self) -> Seq<char> {
        "{\"version\":"@ + decimal(self.version as nat) + ",\"request_id\":"@ + decimal(
            self.request_id as nat,
        ) + ",\"status\":\""@ + self.status.spec_name() + "\",\"error\":"@ + match self.error {
            Some(e) => "\""@ + e.spec_name() + "\""@,
            None => "null"@,
        } + "}"@
    }

    /// The JSON form of this message.
    pub fn to_json(&self) -> (r: String)
        ensures
            r@ == self.spec_json(),
    {
        let mut out = "{\"version\":".to_owned();
        push_decimal(&mut out, self.version as u64);
        out.append(",\"request_id\":");
        push_decimal(&mut out, self.request_id);
        out.append(",\"status\":\"");
        out.append(self.status.name());
        out.append("\",\"error\":");
        match self.error {
            Some(e) => {
                out.append("\"");
                out.append(e.name());
                out.append("\"");
            },
            None => {
                out.append("null");
            },
        }
        out.append("}");
        assert(out@ =~= self.spec_json());
        out
    }
}

impl DiscoveryAnnounce {
    pub open spec fn spec_json(self) -> Seq<char> {
        "{\"version\":"@ + decimal(self.version as nat) + ",\"hostname\":"@ + json_string(
            self.hostname@,
        ) + ",\"ip\":"@ + json_string(self.ip@) + ",\"port\":"@ + decimal(self.port as nat)
            + ",\"tcp_port\":"@ + json_opt_number(opt_u16(self.tcp_port)) + ",\"kcp_port\":"@
            + json_opt_number(opt_u16(self.kcp_port)) + ",\"udp_port\":"@ + json_opt_number(
            opt_u16(self.udp_port),
        ) + ",\"ttl\":"@ + json_opt_number(opt_u16(self.ttl)) + ",\"load\":"@ + json_opt_number(
            match self.load {
                Some(v) => Some(v as nat),
                None => None,
            },
        ) + ",\"degraded\":"@ + json_opt_bool(self.degraded) + "}"@
    }

    /// The JSON form of this message.
    pub fn to_json(&self) -> (r: String)
        ensures
            r@ == self.spec_json(),
    {
        let mut out = "{\"version\":".to_owned();
        push_decimal(&mut out, self.version as u64);
        out.append(",\"hostname\":");
        let host = json_string_of(self.hostname.as_str());
        out.append(host.as_str());
        out.append(",\"ip\":");
        let ip = json_string_of(self.ip.as_str());
        out.append(ip.as_str());
        out.append(",\"port\":");
        push_decimal(&mut out, self.port as u64);
        out.append(",\"tcp_port\":");
        push_opt_number(&mut out, widen(self.tcp_port));
        out.append(",\"kcp_port\":");
        push_opt_number(&mut out, widen(self.kcp_port));
        out.append(",\"udp_port\":");
        push_opt_number(&mut out, widen(self.udp_port));
        out.append(",\"ttl\":");
        push_opt_number(&mut out, widen(self.ttl));
        out.append(",\"load\":");
        push_opt_number(
            &mut out,
            match self.load {
                Some(v) => Some(v as u64),
                None => None,
            },
        );
        out.append(",\"degraded\":");
        push_opt_bool(&mut out, self.degraded);
        out.append("}");
        out
    }
}

/// An optional port or duration as a number.
pub open spec fn opt_u16(n: Option<u16>) -> Option<nat> {
    match n {
        Some(v) => Some(v as nat),
        None => None,
    }
}

fn widen(n: Option<u16>) -> (r: Option<u64>)
    ensures
        opt_u16(n) == (match r {
            Some(v) => Some(v as nat),
            None => None,
        }),
{
    match n {
        Some(v) => Some(v as u64),
        None => None,
    }
}

} // verus!
