[package]
name = "vault_identity"
version = "0.1.0"
edition = "2021"
publish = false

[dependencies]
axum = { version = "=0.8.9", default-features = false, features = ["json", "form"] }
base64 = "=0.22.1"
chrono = "=0.4.45"
constant_time_eq = "=0.6.1"
hex = "=0.4.3"
jsonwebtoken = "=9.3.1"
log = "=0.4.35"
rand = "=0.8.8"
serde = { version = "=1.0.229", features = ["derive"] }
serde_json = { version = "=1.0.154", features = ["raw_value"] }
sha2 = "=0.10.9"
uuid = { version = "=1.29.0", features = ["v4"] }
worker = { version = "=0.8.7", features = ["d1", "http"] }
