[package]
name = "board4rs"
version = "0.1.0"
edition = "2021"
publish = false

[dependencies]
chrono = "*"
env_logger = "*"
log = "*"
serde = { version = "*", features = ["derive"] }
serde_json = "*"
tokio = { version = "*", features = ["sync", "macros", "rt-multi-thread", "time"] }
tokio-util = "*"

[dev-dependencies]
rand = "*"
