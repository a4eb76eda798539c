[package]
name = "aster"
version = "0.1.0"
edition = "2021"
publish = false

[dependencies]
base64 = "=0.22.1"
sha2 = "=0.10.9"
url = "=2.5.8"
serde = { version = "=1.0.229", features = ["derive"] }
serde_json = "=1.0.154"
chrono = "=0.4.45"
dirs = "=7.0.0"
lru = "=0.19.0"
tokio = { version = "=1.54.1", features = ["rt", "macros", "time", "sync"] }
reqwest = { version = "=0.12.28", default-features = false, features = ["json", "rustls-tls"] }

[dev-dependencies]
regex = "=1.13.1"
