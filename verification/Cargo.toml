[package]
name = "shade"
version = "0.1.0"
edition = "2021"
publish = false

[dependencies]
anyhow = "1"
argon2 = { version = "0.5", features = ["std"] }
axum = "0.7"
base64 = "0.22"
clap = { version = "4", features = ["derive", "env"] }
figment = { version = "0.10", features = ["toml", "env"] }
hkdf = "0.12"
hmac = "0.12"
hyper-util = { version = "0.1", features = ["server", "server-auto", "http1", "http2", "service", "tokio"] }
metrics-exporter-prometheus = { version = "0.16", default-features = false }
pem = "3"
r2d2 = "0.8"
r2d2_sqlite = "0.24"
rand = "0.8"
rcgen = { version = "0.13", features = ["x509-parser"] }
refinery = { version = "0.8", features = ["rusqlite"] }
rmp-serde = "1"
rusqlite = { version = "0.31", features = ["bundled", "backup"] }
rustls = { version = "0.23", default-features = false, features = ["ring", "std", "tls12", "logging"] }
serde = { version = "1", features = ["derive"] }
serde_json = "1"
sha2 = "0.10"
tokio = { version = "1", features = ["full"] }
tokio-rustls = { version = "0.26", default-features = false, features = ["ring", "tls12", "logging"] }
tower-http = { version = "0.6", features = ["trace"] }
tracing = "0.1"
tracing-subscriber = { version = "0.3", features = ["env-filter", "json"] }
ulid = "1"
ureq = { version = "2", default-features = false, features = ["tls", "json"] }
webpki-roots = "0.26"
