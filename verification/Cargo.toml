[package]
name = "cmonitor"
version = "1.2.27"
edition = "2021"
publish = false

[dependencies]
anyhow = "1"
axum = { version = "0.8", features = ["ws"] }
chrono = { version = "0.4", default-features = false, features = ["clock"] }
futures-util = { version = "0.3", features = ["sink"] }
rand = "0.9"
rusqlite = { version = "0.32", features = ["bundled"] }
serde = { version = "1", features = ["derive"] }
serde_json = "1"
sha2 = "0.10"
tokio = { version = "1", features = ["macros", "sync", "time"] }
tracing = "0.1"
