[package]
name = "char_core"
version = "0.1.0"
edition = "2021"
publish = false

[dependencies]
regex = "=1.13.1"
uuid = { version = "=1.29.0", features = ["v4"] }
crossterm = "=0.29.0"
ratatui = "=0.30.2"
serde = { version = "=1.0.229", features = ["derive"] }
serde_json = "=1.0.154"
thiserror = "=2.0.21"
realfft = "=3.5.1"
toml = "=1.1.8"
tokio = { version = "=1.54.1", features = ["full"] }
sqlx = { version = "=0.9.0", default-features = false, features = ["sqlite", "runtime-tokio"] }
colored = "=3.1.1"
textwrap = "=0.16.4"
clap = { version = "=4.6.7", features = ["derive"] }
anyhow = "=1.0.104"
chrono = "=0.4.45"
axum = "=0.8.9"
reqwest = { version = "=0.12.28", default-features = false, features = ["rustls-tls"] }
bytes = "=1.12.1"
xshell = "0.2"
tempfile = "3"
