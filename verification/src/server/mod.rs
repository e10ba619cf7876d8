//! The node server: collects snapshots, caches them and answers clients.

pub mod cache;
pub mod collector;
pub mod model;
pub mod nvml;
pub mod session;
pub mod startup;
pub mod test_collector;
pub mod transport;
pub mod udp_transport;
