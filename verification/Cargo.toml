[package]
name = "okv"
version = "0.1.0"
edition = "2021"
publish = false

[dependencies]
byteorder = "=1.5.0"
dashmap = "=5.5.3"
futures = "=0.3.34"
redb = "=2.6.4"
rmp-serde = "=1.3.1"
rocksdb = "=0.25.0"
serde = { version = "=1.0.229", features = ["derive"] }
serde_json = "=1.0.154"
thiserror = "=1.0.69"
uuid = "=1.29.0"
worker = { version = "=0.8.7", features = ["d1"] }
