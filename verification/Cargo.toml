[package]
name = "paradigm-core"
version = "0.1.0"
edition = "2021"
publish = false

[dependencies]
anyhow = "=1.0.104"
blake3 = "=1.8.7"
chrono = { version = "=0.4.45", features = ["serde"] }
dashmap = "*"
dirs = "=5.0.1"
ed25519-dalek = "=2.2.0"
hex = "=0.4.3"
num_cpus = "=1.17.0"
rand = "=0.8.8"
serde = { version = "=1.0.229", features = ["derive"] }
serde_json = "=1.0.154"
sqlx = { version = "=0.8.6", default-features = false, features = ["sqlite", "runtime-tokio"] }
tokio = { version = "=1.54.1", features = ["rt-multi-thread", "macros", "sync", "time"] }
uuid = { version = "=1.29.0", features = ["v4", "serde"] }
