[package]
name = "gateway_core"
version = "0.1.0"
edition = "2021"
publish = false

[dependencies]
serde = { version = "=1.0.229", features = ["derive"] }
serde_json = "=1.0.154"
semver = "=1.0.28"
url = "=2.5.8"
thiserror = "=2.0.21"
sha2 = "0.10"
uuid = { version = "1", features = ["v7"] }
