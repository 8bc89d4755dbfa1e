[package]
name = "pq_json"
version = "0.1.0"
edition = "2021"
publish = false

[dependencies]
num-bigint = "=0.4.8"
serde_json = { version = "=1.0.154", features = ["raw_value"] }
