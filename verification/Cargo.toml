[package]
name = "vvv"
version = "0.1.0"
edition = "2021"
publish = false

[dependencies]
base64 = "0.22"
chrono = "0.4"
chrono-tz = "0.10"
fastnbt = "2"
flate2 = "1"
linemux = "0.3"
mc-rcon = "*"
poise = "0.6"
rand = "0.9"
redb = "3"
regex = "1"
rust-mc-status = "*"
serde = { version = "1", features = ["derive"] }
serde_json = "1"
thiserror = "2"
tokio = { version = "1", features = ["full"] }
toml = "0.9"
tracing = "0.1"
tracing-subscriber = { version = "0.3", features = ["env-filter", "local-time"] }
url = "2"
