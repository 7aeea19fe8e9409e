[package]
name = "sipcord_bridge"
version = "0.1.0"
edition = "2021"
publish = false

[dependencies]
anyhow = "1"
async-trait = "0.1"
crossbeam-channel = "0.5"
dashmap = "6.1"
md-5 = "0.10"
moka = { version = "0.12", features = ["sync"] }
parking_lot = "0.12"
rand = "0.9"
rtrb = "0.3"
serde = { version = "1", features = ["derive"] }
thiserror = "2"
tokio = { version = "1.48", features = ["rt", "rt-multi-thread", "sync", "time", "net", "macros"] }
tokio-util = "0.7"
tracing = "0.1"
udptl = "0.2"
