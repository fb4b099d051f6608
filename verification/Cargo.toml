[package]
name = "ytkew"
version = "0.1.0"
edition = "2021"
publish = false

[dependencies]
rand = "=0.9.5"
unicode-width = "=0.2.0"
base64 = "=0.22.1"
png = "=0.18.1"
image = { version = "=0.25.10", default-features = false, features = ["png", "jpeg"] }
anyhow = "=1.0.104"
serde = { version = "=1.0.229", features = ["derive"] }
serde_json = "=1.0.154"
toml = "=0.8.23"
tokio = { version = "=1.54.1", features = ["full"] }
crossterm = "=0.28.1"
ratatui = "=0.29.0"
dirs = "=6.0.0"
clap = { version = "=4.6.7", features = ["derive"] }
reqwest = { version = "=0.12.28", default-features = false, features = ["rustls-tls"] }
ytmapi-rs = "=0.3.3"
mpris-server = "=0.11.0"
rusqlite = { version = "=0.41.1", features = ["bundled"] }
rustfft = "=6.4.1"
libc = "=0.2.191"
futures = "=0.3.34"
