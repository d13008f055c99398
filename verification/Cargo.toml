[package]
name = "cherenkov"
version = "0.1.0"
edition = "2021"
publish = false

[dependencies]
regex = "=1.13.1"
governor = "=0.6.3"
dashmap = "=5.5.3"
uuid = { version = "=1.29.0", features = ["v4", "v5"] }
chrono = "=0.4.45"
jsonwebtoken = "=9.3.1"
serde_json = "=1.0.154"
metrics = "=0.22.4"
lru = "=0.12.5"
tokio = { version = "=1.54.1", features = ["rt", "time", "sync", "macros"] }
