[package]
name = "orbflow"
version = "0.1.0"
edition = "2021"
publish = false

[dependencies]
async-nats = "=0.51.0"
async-trait = "=0.1.92"
axum = "=0.8.9"
base64 = "=0.22.1"
bytes = "=1.12.1"
chrono = { version = "=0.4.45", default-features = false, features = ["std", "clock"] }
dashmap = "=6.2.1"
governor = "=0.10.4"
reqwest = { version = "=0.12.28", default-features = false, features = ["json"] }
serde = { version = "=1.0.229", features = ["derive"] }
serde_json = "=1.0.154"
sqlx = { version = "=0.8.6", default-features = false, features = ["postgres", "runtime-tokio", "chrono", "derive"] }
subtle = "=2.6.1"
tokio = { version = "=1.54.1", features = ["full"] }
tokio-stream = "=0.1.19"
tower_governor = { version = "=0.8.0", features = ["tracing"] }
tracing = "=0.1.44"
url = "=2.5.8"
