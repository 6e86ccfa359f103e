[package]
name = "snowpatch"
version = "1.0.0"
edition = "2021"
publish = false

[dependencies]
sled = "=0.34.7"
ureq = { version = "=2.12.1", default-features = false }
serde = { version = "=1.0.229", features = ["derive"] }
serde_json = "=1.0.151"
ron = "=0.8.1"
dirs = "=5.0.1"
