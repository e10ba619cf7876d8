[package]
name = "clustat"
version = "1.0.0"
edition = "2021"
publish = false

[dependencies]
chrono = "0.4"
crc32fast = "1"
ctrlc = "3"
kcp2 = "0.2.2"
memmap2 = "0.9"
nvml-wrapper = "0.10"
rkyv = "0.8"
serde = { version = "1", features = ["derive"] }
serde_json = "1"
socket2 = "0.5"
thiserror = "1"
tokio = { version = "1", features = ["net", "rt", "rt-multi-thread", "macros", "time", "io-util", "sync"] }
toml = "0.8"
