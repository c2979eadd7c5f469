[package]
name = "recall_os"
version = "0.1.0"
edition = "2021"
publish = false

[dependencies]
tiktoken-rs = "=0.6.0"
sha2 = "=0.10.9"
hex = "=0.4.3"
regex = "=1.13.1"
serde = { version = "=1.0.229", features = ["derive"] }
serde_json = "=1.0.154"
mime_guess = "=2.0.5"
chrono = "=0.4.45"
uuid = { version = "=1.29.0", features = ["v4"] }
base64 = "=0.22.1"
tokio = { version = "=1.54.1", features = ["rt-multi-thread", "macros", "sync", "time"] }
rusqlite = { version = "=0.31.0", features = ["bundled", "load_extension"] }
reqwest = { version = "=0.12.28", default-features = false, features = ["json", "rustls-tls"] }
notify = "=6.1.1"
walkdir = "=2.5.0"
pdf-extract = "=0.7.12"
parking_lot = "=0.12.5"

[dev-dependencies]
tempfile = "3"
