[package]
name = "taskdeck"
version = "0.1.0"
edition = "2021"
publish = false

[dependencies]
serde_json = "=1.0.154"
rusqlite = { version = "=0.41.1", features = ["bundled", "backup"] }
reqwest = { version = "=0.12.28", default-features = false, features = ["json", "rustls-tls"] }
