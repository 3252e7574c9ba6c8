[package]
name = "nuro"
version = "0.1.0"
edition = "2021"
publish = false

[dependencies]
meval = "0.2"
serde = { version = "1", features = ["derive"] }
serde_json = "1"
tokio = { version = "1", features = ["full"] }
tokio-stream = "0.1"
async-trait = "0.1"
axum = "0.7"
reqwest = { version = "0.12", default-features = false, features = ["json"] }
rusqlite = { version = "0.31", features = ["bundled"] }
postgres = "0.19"
tracing = "0.1"
thiserror = "1"
anyhow = "1"
