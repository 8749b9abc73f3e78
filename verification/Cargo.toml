[package]
name = "ollmo"
version = "0.1.0"
edition = "2021"
publish = false

[dependencies]
anyhow = "1"
async-watcher = "0.3"
axum = "0.8"
clap = { version = "4", features = ["derive"] }
dirs = "6"
jsonptr = "0.7"
log = "0.4"
minijinja = { version = "2", features = ["loader"] }
reqwest = { version = "0.12", default-features = false, features = ["json", "stream", "rustls-tls"] }
serde = { version = "1", features = ["derive"] }
serde_json = "1"
shellexpand = "3"
tokio = { version = "1", features = ["full"] }
toml = "0.9"
tracing = "0.1"
tracing-subscriber = "0.3"
walkdir = "2"
