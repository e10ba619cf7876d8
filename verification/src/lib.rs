//! GPU and general-resource monitoring for a cluster: the wire protocol, the
//! node server, the client backend and the command line, as verified logic.

pub mod bytes;
pub mod sorted;
pub mod text;
pub mod textmap;
pub mod cli;
pub mod client;
pub mod common;
pub mod laws;
pub mod server;
