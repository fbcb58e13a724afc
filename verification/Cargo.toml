[package]
name = "rust-workflow-engine"
version = "0.1.0"
edition = "2021"
publish = false

[dependencies]
serde = { version = "1", features = ["derive"] }
serde_json = "1"
sha2 = "0.10"
crc32fast = "1"
chrono = { version = "0.4", default-features = false, features = ["clock"] }
jsonschema = { version = "*", default-features = false }
prometheus = { version = "0.13", default-features = false }
lazy_static = "1"
log = "0.4"
thiserror = "1"
tokio = { version = "1", features = ["rt-multi-thread", "macros", "sync", "time"] }
urlencoding = "2"
num_cpus = "1"
rand = "0.8"
dashmap = "5"
crossbeam = "0.8"
crossbeam-queue = "0.3"
parking_lot = "0.12"
futures = "0.3"
