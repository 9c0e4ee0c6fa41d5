[package]
name = "cla_commander"
version = "0.1.0"
edition = "2021"
publish = false

[dependencies]
chrono = "=0.4.45"
uuid = { version = "=1.29.0", features = ["v4"] }
serde = { version = "=1.0.229", features = ["derive"] }
serde_json = "=1.0.154"
tokio = { version = "=1.54.1", features = ["sync", "time", "rt", "macros"] }
reqwest = { version = "=0.12.28", default-features = false, features = ["json"] }
log = "=0.4.34"
async-trait = "=0.1.92"
thiserror = "=1.0.69"
sha2 = "0.10"
base64 = "0.22"
rand = "0.8"
