//! The client backend: finds nodes, keeps their snapshots and answers queries.

pub mod adapter;
pub mod base64;
pub mod cache;
pub mod config;
pub mod discovery;
pub mod filter;
pub mod json;
pub mod kcp_client;
pub mod local_api;
pub mod reply;
pub mod transport;
pub mod udp_client;
