[package]
name = "signing-gateway"
version = "0.1.0"
edition = "2021"
publish = false

[dependencies]
anyhow = "=1.0.104"
async-trait = "=0.1.92"
axum = "=0.7.9"
base64 = "=0.22.1"
chrono = "=0.4.45"
config = { version = "=0.14.1", default-features = false, features = ["toml"] }
cryptoki = "=0.9.0"
deadpool = "=0.10.0"
hex = "=0.4.3"
hmac = "=0.12.1"
ipnet = "=2.12.2"
metrics = "=0.23.1"
metrics-exporter-prometheus = { version = "=0.15.3", default-features = false, features = ["http-listener"] }
p256 = "=0.13.2"
p384 = "=0.13.1"
prost = "=0.12.6"
rand = "=0.8.8"
ring = "=0.17.14"
rsa = "=0.9.10"
serde = { version = "=1.0.229", features = ["derive"] }
sha2 = { version = "=0.10.9", features = ["oid"] }
thiserror = "=1.0.69"
tokio = { version = "=1.54.1", features = ["full"] }
tonic = "=0.11.0"
tonic-reflection = "=0.11.0"
tower-http = { version = "=0.5.2", features = ["cors", "trace"] }
tracing = "=0.1.44"
tracing-subscriber = { version = "=0.3.23", features = ["env-filter", "json"] }
uuid = { version = "=1.29.0", features = ["v4"] }
zeroize = "=1.9.1"
