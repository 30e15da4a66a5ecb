[package]
name = "provider_routing"
version = "0.1.0"
edition = "2021"
publish = false

[dependencies]
log = "0.4"
notify = "8"
reqwest = { version = "0.12", default-features = false }
serde_json = "1"
tokio = { version = "1", features = ["rt", "sync", "macros"] }
