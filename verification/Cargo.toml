[package]
name = "bitflyer_client"
version = "0.1.0"
edition = "2021"
publish = false

[dependencies]
reqwest = { version = "=0.13.5", features = ["blocking", "gzip"] }
rusqlite = { version = "=0.40.2", features = ["bundled"] }
serde_json = { version = "=1.0.154", features = ["raw_value"] }
ws = "=0.9.2"
