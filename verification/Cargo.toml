[package]
name = "deskd"
version = "0.1.0"
edition = "2021"
publish = false

[dependencies]
anyhow = "1"
async-trait = "0.1"
axum = { version = "=0.8.9", default-features = false, features = ["http1", "tokio"] }
chrono = { version = "=0.4.45", features = ["serde"] }
chrono-tz = "=0.10.4"
cron = "=0.15.0"
crossterm = "0.28"
fs2 = "0.4"
hex = "=0.4.3"
hmac = "=0.12.1"
ratatui = "0.29"
reqwest = { version = "0.12", default-features = false, features = ["json"] }
rusqlite = { version = "0.32", features = ["bundled"] }
serde = { version = "=1.0.229", features = ["derive"] }
serde_json = { version = "=1.0.154", features = ["float_roundtrip", "preserve_order", "unbounded_depth"] }
serde_yaml = "=0.9.34+deprecated"
serenity = { version = "0.12", default-features = false, features = ["client", "gateway", "model", "http", "rustls_backend"] }
sha2 = "=0.10.9"
tokio = { version = "1", features = ["full"] }
tokio-util = "0.7"
tracing = "0.1"
uuid = { version = "=1.29.0", features = ["v4"] }

[dev-dependencies]
