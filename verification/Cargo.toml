[package]
name = "othello"
version = "0.1.0"
edition = "2021"
publish = false

[dependencies]
ulid = "1"
serde = { version = "1", features = ["derive"] }
serde_json = "1"
tokio = { version = "1", features = ["rt-multi-thread", "macros", "sync", "signal", "net"] }
axum = { version = "*", features = ["ws"] }
futures = "0.3"
futures-util = "0.3"
log = "0.4"
env_logger = "*"
