[package]
name = "media_relay"
version = "0.1.0"
edition = "2021"
publish = false

[dependencies]
rand = "=0.10.3"
lru = { version = "=0.18.5", default-features = false }
tokio = { version = "*", features = ["full"] }
anyhow = "*"
log = "*"
rusqlite = { version = "*", features = ["bundled"] }
serde = { version = "*", features = ["derive"] }
serde_json = "*"
