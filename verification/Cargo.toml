[package]
name = "broadlink_remote"
version = "0.1.0"
edition = "2021"
publish = false

[dependencies]
serde = { version = "1", features = ["derive"] }
serde_json = "1"
reqwest = { version = "0.12", default-features = false, features = ["json"] }
tokio = { version = "1", features = ["full"] }
crossterm = "0.28"
ratatui = "0.29"
ksni = "0.2"
mpris-server = "0.8"
zbus = "4"
futures = "0.3"
home = "0.5"
log = "0.4"
env_logger = "0.11"
