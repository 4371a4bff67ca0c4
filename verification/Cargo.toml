[package]
name = "steam-animation-daemon"
version = "0.1.0"
edition = "2021"
publish = false

[dependencies]
anyhow = "1"
clap = { version = "4", features = ["derive"] }
procfs = "*"
rand = "0.8"
serde = { version = "1", features = ["derive"] }
serde_json = "1"
sha2 = "0.10"
systemd = "*"
tokio = { version = "1", features = ["full"] }
toml = "*"
tracing = "0.1"
tracing-subscriber = "0.3"
