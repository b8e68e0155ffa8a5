[package]
name = "qtmon"
version = "0.1.0"
edition = "2021"
publish = false

[dependencies]
chrono = { version = "=0.4.45", features = ["serde"] }
clap = "=2.34.0"
dirs = "=3.0.2"
flexi_logger = { version = "=0.16.3", features = ["compress"] }
futures = "=0.3.34"
log = "=0.4.34"
questrade-rs = "=0.1.1"
reqwest = "=0.10.10"
ron = "=0.6.6"
rustbreak = { version = "=2.0.0", features = ["ron_enc"] }
serde = { version = "=1.0.229", features = ["derive"] }
tokio = { version = "=0.2.25", features = ["full"] }
warp = "=0.2.5"
