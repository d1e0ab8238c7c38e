[package]
name = "evmcrispr-api"
version = "0.1.0"
edition = "2021"
publish = false

[dependencies]
alloy-consensus = { version = "=1.8.3", default-features = false, features = ["std", "k256"] }
alloy-primitives = { version = "=1.7.3", default-features = false, features = ["std"] }
alloy-rlp = "=0.3.17"
anyhow = "=1.0.104"
chrono = { version = "=0.4.45", default-features = false, features = ["std", "alloc"] }
futures = "=0.3.34"
serde = { version = "=1.0.229", features = ["derive"] }
serde_json = "=1.0.154"
spin-contrib-http = "=0.0.9"
spin-executor = "=5.2.0"
spin-sdk = "=5.2.0"
wasi = "0.13"
