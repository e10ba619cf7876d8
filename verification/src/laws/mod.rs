//! What the operations of the library are for, as relations between their inputs
//! and their results.

pub mod args;
pub mod calls;
pub mod client;
pub mod collector;
pub mod discovery;
pub mod filter;
pub mod local_api;
pub mod messages;
pub mod nvml;
pub mod refresh;
pub mod render;
pub mod server;
pub mod shown;
pub mod snapshot;
pub mod startup;
pub mod text;
pub mod udp_server;
pub mod views;
pub mod wire;
