//! Definitions shared by the server, the client backend and the command line.

pub mod config;
pub mod crc;
pub mod error;
pub mod fingerprint;
pub mod frame;
pub mod message;
pub mod net;
pub mod payload;
pub mod reassembly;
pub mod snapshot;
pub mod udp;
