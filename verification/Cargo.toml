[package]
name = "hybridtrade"
version = "0.1.0"
edition = "2021"
publish = false

[dependencies]
chrono = "*"
cron = "*"
serde = { version = "1", features = ["derive"] }
serde_json = "1"
toml = "*"
