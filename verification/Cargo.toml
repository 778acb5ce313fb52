[package]
name = "valedesk_core"
version = "0.1.0"
edition = "2021"
publish = false

[dependencies]
base64 = "0.22"
boa_engine = "0.20"
chrono = "0.4"
futures-util = "0.3"
hex = "=0.4.3"
mime = "0.3"
reqwest = { version = "0.12", features = ["blocking", "multipart", "stream"] }
rusqlite = { version = "0.32", features = ["bundled"] }
serde = { version = "=1.0.229", features = ["derive"] }
serde_json = "=1.0.154"
sha2 = "=0.10.9"
uuid = { version = "1", features = ["v4"] }
