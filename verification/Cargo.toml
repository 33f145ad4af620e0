[package]
name = "puddle_sync"
version = "0.1.0"
edition = "2021"
publish = false

[dependencies]
redb = "*"
tokio = { version = "*", features = ["rt-multi-thread", "macros", "time"] }
log = "*"
env_logger = "*"
anyhow = "*"
