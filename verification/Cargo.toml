[package]
name = "sway"
version = "0.1.0"
edition = "2021"
publish = false

[dependencies]
anyhow = "=1.0.104"
dirs = "=7.0.0"
russh = "=0.65.0"
serde = { version = "=1.0.229", features = ["derive"] }
ssh-key = { version = "=0.7.0-rc.11", features = ["ed25519", "getrandom"] }
tokio = { version = "=1.54.1", features = ["full"] }
toml = "=0.8.23"
tracing = "=0.1.44"
tracing-subscriber = { version = "=0.3.23", features = ["env-filter"] }
winreg = "*"
