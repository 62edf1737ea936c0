[package]
name = "room_authz"
version = "0.1.0"
edition = "2021"
publish = false

[dependencies]
ruma = { version = "0.12", features = ["events"] }
serde_json = { version = "1", features = ["raw_value"] }
pqcrypto-kyber = "*"
pqcrypto-dilithium = "*"
pqcrypto-traits = "*"
tokio = { version = "1", features = ["sync", "rt", "time"] }
futures = "0.3"
tracing = "0.1"
axum = "*"
axum-server = "*"
