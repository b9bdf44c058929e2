[package]
name = "journald_broker"
version = "0.1.0"
edition = "2021"
publish = false

[dependencies]
regex = "*"
serde_json = "*"
serde = { version = "*", features = ["derive"] }
config = { version = "*", default-features = false, features = ["toml"] }
humantime-serde = "*"
anyhow = "*"
tracing = "*"
tracing-subscriber = { version = "*", features = ["env-filter"] }
systemd = "*"
wait-timeout = "*"
walkdir = "*"
mimalloc = "*"
