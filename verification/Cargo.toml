[package]
name = "partition_store"
version = "0.1.0"
edition = "2021"
publish = false

[dependencies]
async-trait = "=0.1.92"
dashmap = "=6.2.1"
datafusion = { version = "=50.3.0", default-features = false }
futures = "=0.3.34"
log = "=0.4.35"
tokio = { version = "=1.54.1", features = ["rt", "sync"] }
