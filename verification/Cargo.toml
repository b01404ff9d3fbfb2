[package]
name = "esprit"
version = "0.1.0"
edition = "2021"
publish = false

[dependencies]
anyhow = "1"
axum = "=0.8.9"
clap = { version = "=4.6.7", features = ["derive"] }
crossbeam-channel = "=0.5.17"
crossterm = "0.28"
dashmap = "=6.2.1"
directories = "=6.0.0"
futures-core = "=0.3.34"
ignore = "=0.4.34"
indicatif = "=0.18.6"
notify = "=8.2.1"
owo-colors = "=4.4.0"
parking_lot = "=0.12.5"
petgraph = "=0.8.3"
ratatui = "0.29"
regex = "=1.13.1"
reqwest = { version = "=0.12.28", default-features = false, features = ["blocking", "json", "rustls-tls"] }
rusqlite = { version = "=0.41.1", features = ["bundled"] }
serde = { version = "=1.0.229", features = ["derive"] }
serde_json = "=1.0.154"
sha2 = "=0.10.9"
sysinfo = { version = "=0.40.1", default-features = false, features = ["system"] }
tantivy = "=0.27.0"
thiserror = "=2.0.21"
tokio = { version = "=1.54.1", features = ["full"] }
toml = "=0.9.12"
tracing = "=0.1.44"
tracing-subscriber = "=0.3.23"
walkdir = "=2.5.0"
