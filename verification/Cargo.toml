[package]
name = "gem_endgame"
version = "0.1.0"
edition = "2021"
publish = false

[dependencies]
alloy = { version = "=1.8.3", default-features = false, features = ["std", "signer-local"] }
anyhow = "=1.0.104"
axum = { version = "=0.8.9", default-features = false, features = ["http1", "json", "tokio"] }
chrono = { version = "=0.4.45", default-features = false, features = ["std", "now"] }
futures-util = "=0.3.34"
libc = "=0.2.191"
reqwest = { version = "=0.12.28", default-features = false, features = ["json"] }
rusqlite = { version = "=0.41.1", default-features = false, features = ["bundled"] }
serde = { version = "=1.0.229", features = ["derive"] }
serde_json = "=1.0.154"
tokio = { version = "=1.54.1", default-features = false, features = ["macros", "rt-multi-thread", "sync", "time"] }
tokio-stream = { version = "=0.1.19", default-features = false, features = ["sync"] }
tokio-tungstenite = { version = "=0.30.0", default-features = false, features = ["connect"] }
