[package]
name = "database_receiver"
version = "0.1.0"
edition = "2021"
publish = false

[dependencies]
async-trait = "=0.1.92"
base64 = "=0.22.1"
blake3 = { version = "=1.8.7", default-features = false, features = ["std", "pure"] }
chrono = "=0.4.45"
futures = "=0.3.34"
humantime-serde = "=1.1.1"
oracle = "=0.6.3"
rand = "=0.9.5"
rustls = { version = "=0.23.46", default-features = false, features = ["std", "tls12", "ring"] }
secrecy = "=0.10.3"
serde = { version = "=1.0.229", features = ["derive"] }
serde_json = "=1.0.154"
sqlparser = { version = "=0.58.0", default-features = false, features = ["std", "visitor"] }
tokio = { version = "=1.54.1", features = ["rt", "macros", "time", "sync", "fs", "io-util"] }
tokio-postgres = { version = "=0.7.18", features = ["with-chrono-0_4", "with-uuid-1"] }
tokio-postgres-rustls = { version = "=0.13.0", default-features = false }
tokio-util = "=0.7.20"
urlencoding = "=2.1.3"
uuid = "=1.29.0"
