[package]
name = "autofilm"
version = "0.1.0"
edition = "2021"
publish = false

[dependencies]
reqwest = { version = "0.12", default-features = false, features = ["json", "rustls-tls"] }
base64 = "0.22"
rand = "0.9"
image = { version = "0.25", default-features = false, features = ["png", "jpeg", "webp", "gif"] }
imageproc = { version = "0.25", default-features = false }
ab_glyph = "0.2"
serde = { version = "1", features = ["derive"] }
serde_yaml = "0.9"
thiserror = "2"
tokio = { version = "1", features = ["rt-multi-thread", "macros", "fs", "signal"] }
tokio-cron-scheduler = "*"
chrono-tz = "*"
tracing = "0.1"
tracing-subscriber = "0.3"

[dev-dependencies]
serde_json = "1"
