[package]
name = "kokoro_chat"
version = "0.1.0"
edition = "2021"
publish = false

[dependencies]
serde = { version = "1", features = ["derive"] }
serde_json = "1"
regex = "1"
url = "2"
thiserror = "1"
chrono = "0.4"
uuid = { version = "1", features = ["v4"] }
base64 = "0.22"
async-trait = "0.1"
log = "0.4"
dotenvy = "0.15"
rusqlite = { version = "*", features = ["bundled"] }
tokio = { version = "1", features = ["full"] }
reqwest = { version = "0.12", default-features = false, features = ["json", "rustls-tls"] }
