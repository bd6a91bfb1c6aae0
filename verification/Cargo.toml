[package]
name = "neurokaraoke"
version = "0.1.0"
edition = "2021"
publish = false

[dependencies]
anyhow = "=1.0.104"
base64 = "=0.22.1"
dashmap = "=6.2.1"
dirs = "=6.0.0"
mimalloc = "=0.1.52"
open = "=5.4.5"
rand = "=0.9.5"
reqwest = { version = "=0.12.28", features = ["json"] }
rodio = "=0.23.0"
ron = "=0.10.1"
serde = { version = "=1.0.229", features = ["derive"] }
serde_json = "=1.0.154"
serde_with = "=3.24.0"
sha2 = "0.10"
tokio = { version = "=1.54.1", features = ["full"] }
url = "=2.5.8"
urlencoding = "=2.1.3"
uuid = { version = "=1.29.0", features = ["v4", "serde"] }
