//! Stable error codes, used on the wire and in logs.

use vstd::prelude::*;

verus! {

/// A failure with a number that never changes between releases.
#[derive(Debug, Clone, Copy, PartialEq, Eq, Structural)]
pub enum ErrorCode {
    NvmlUnavailable,
    ConfigInvalid,
    PortExhausted,
    MulticastFailed,
    KcpInitFailed,
    HeartbeatTimeout,
    ConnectionClosed,
    QueryTimeout,
    InvalidFilter,
    ProtocolVersionMismatch,
    Internal,
}

impl ErrorCode {
    /// The number of an error.
    pub open spec fn spec_code(self) -> u16 {
        match self {
            ErrorCode::NvmlUnavailable => 1001,
            ErrorCode::ConfigInvalid => 1002,
            ErrorCode::PortExhausted => 1003,
            ErrorCode::MulticastFailed => 1004,
            ErrorCode::KcpInitFailed => 1005,
            ErrorCode::HeartbeatTimeout => 1006,
            ErrorCode::ConnectionClosed => 1007,
            ErrorCode::QueryTimeout => 1008,
            ErrorCode::InvalidFilter => 1009,
            ErrorCode::ProtocolVersionMismatch => 1010,
            ErrorCode::Internal => 1999,
        }
    }

    /// The name of an error in JSON messages and in logs.
    pub open spec fn spec_name(self) -> Seq<char> {
        match self {
            ErrorCode::NvmlUnavailable => "NvmlUnavailable"@,
            ErrorCode::ConfigInvalid => "ConfigInvalid"@,
            ErrorCode::PortExhausted => "PortExhausted"@,
            ErrorCode::MulticastFailed => "MulticastFailed"@,
            ErrorCode::KcpInitFailed => "KcpInitFailed"@,
            ErrorCode::HeartbeatTimeout => "HeartbeatTimeout"@,
            ErrorCode::ConnectionClosed => "ConnectionClosed"@,
            ErrorCode::QueryTimeout => "QueryTimeout"@,
            ErrorCode::InvalidFilter => "InvalidFilter"@,
            ErrorCode::ProtocolVersionMismatch => "ProtocolVersionMismatch"@,
            ErrorCode::Internal => "Internal"@,
        }
    }

    /// The text shown for an error.
    pub open spec fn spec_message(self) -> Seq<char> {
        match self {
            ErrorCode::NvmlUnavailable => "nvml unavailable"@,
            ErrorCode::ConfigInvalid => "configuration invalid"@,
            ErrorCode::PortExhausted => "port range exhausted"@,
            ErrorCode::MulticastFailed => "multicast setup failed"@,
            ErrorCode::KcpInitFailed => "kcp initialization failed"@,
            ErrorCode::HeartbeatTimeout => "heartbeat timeout"@,
            ErrorCode::ConnectionClosed => "connection closed"@,
            ErrorCode::QueryTimeout => "query timeout"@,
            ErrorCode::InvalidFilter => "invalid filter"@,
            ErrorCode::ProtocolVersionMismatch => "protocol version mismatch"@,
            ErrorCode::Internal => "internal error"@,
        }
    }

    /// The number that stands for this error on the wire.
    pub fn code(self) -> (r: u16)
        ensures
            r == self.spec_code(),
    {
        match self {
            ErrorCode::NvmlUnavailable => 1001,
            ErrorCode::ConfigInvalid => 1002,
            ErrorCode::PortExhausted => 1003,
            ErrorCode::MulticastFailed => 1004,
            ErrorCode::KcpInitFailed => 1005,
            ErrorCode::HeartbeatTimeout => 1006,
            ErrorCode::ConnectionClosed => 1007,
            ErrorCode::QueryTimeout => 1008,
            ErrorCode::InvalidFilter => 1009,
            ErrorCode::ProtocolVersionMismatch => 1010,
            ErrorCode::Internal => 1999,
        }
    }

    /// The error with the given number, if there is one.
    pub fn from_code(code: u16) -> (r: Option<ErrorCode>)
        ensures
            r matches Some(e) ==> e.spec_code() == code,
            r is None ==> forall|e: ErrorCode| #[trigger] e.spec_code() != code,
    {
        match code {
            1001 => Some(ErrorCode::NvmlUnavailable),
            1002 => Some(ErrorCode::ConfigInvalid),
            1003 => Some(ErrorCode::PortExhausted),
            1004 => Some(ErrorCode::MulticastFailed),
            1005 => Some(ErrorCode::KcpInitFailed),
            1006 => Some(ErrorCode::HeartbeatTimeout),
            1007 => Some(ErrorCode::ConnectionClosed),
            1008 => Some(ErrorCode::QueryTimeout),
            1009 => Some(ErrorCode::InvalidFilter),
            1010 => Some(ErrorCode::ProtocolVersionMismatch),
            1999 => Some(ErrorCode::Internal),
            _ => None,
        }
    }

    /// The name of this error, as written in JSON messages and in logs.
    pub fn name(self) -> (r: &'static str)
        ensures
            r@ == self.spec_name(),
    {
        match self {
            ErrorCode::NvmlUnavailable => "NvmlUnavailable",
            ErrorCode::ConfigInvalid => "ConfigInvalid",
            ErrorCode::PortExhausted => "PortExhausted",
            ErrorCode::MulticastFailed => "MulticastFailed",
            ErrorCode::KcpInitFailed => "KcpInitFailed",
            ErrorCode::HeartbeatTimeout => "HeartbeatTimeout",
            ErrorCode::ConnectionClosed => "ConnectionClosed",
            ErrorCode::QueryTimeout => "QueryTimeout",
            ErrorCode::InvalidFilter => "InvalidFilter",
            ErrorCode::ProtocolVersionMismatch => "ProtocolVersionMismatch",
            ErrorCode::Internal => "Internal",
        }
    }

    /// The text shown to a person for this error.
    pub fn message(self) -> (r: &'static str)
        ensures
            r@ == self.spec_message(),
    {
        match self {
            ErrorCode::NvmlUnavailable => "nvml unavailable",
            ErrorCode::ConfigInvalid => "configuration invalid",
            ErrorCode::PortExhausted => "port range exhausted",
            ErrorCode::MulticastFailed => "multicast setup failed",
            ErrorCode::KcpInitFailed => "kcp initialization failed",
            ErrorCode::HeartbeatTimeout => "heartbeat timeout",
            ErrorCode::ConnectionClosed => "connection closed",
            ErrorCode::QueryTimeout => "query timeout",
            ErrorCode::InvalidFilter => "invalid filter",
            ErrorCode::ProtocolVersionMismatch => "protocol version mismatch",
            ErrorCode::Internal => "internal error",
        }
    }
}

/// No two errors share a number, so a number read back names the same error.
pub proof fn law_error_codes_are_distinct(a: ErrorCode, b: ErrorCode)
    ensures
        a.spec_code() == b.spec_code() <==> a == b,
{
}

} // verus!
