[package]
name = "ref_aggregator"
version = "0.1.0"
edition = "2021"
publish = false

[dependencies]
serde = { version = "=1.0.229", features = ["derive"] }
serde_json = "=1.0.154"
futures = "=0.3.34"
rocket = { version = "=0.5.2", default-features = false, features = ["json"] }
redis = { version = "0.23", default-features = false }
derive-redis-json = "=0.1.1"
near-jsonrpc-client = "=0.22.0"
near-jsonrpc-primitives = "=0.37.4"
near-primitives = "=0.37.4"
