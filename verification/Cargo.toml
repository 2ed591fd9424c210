[package]
name = "rillrate"
version = "0.1.0"
edition = "2021"
publish = false

[dependencies]
anyhow = "1"
env_logger = "0.9"
flate2 = "1"
futures = "0.3"
log = "0.4"
serde = { version = "1", features = ["derive"] }
tar = "0.4"
tokio = { version = "1", features = ["sync", "rt-multi-thread", "macros", "time"] }
typed-slab = "0.2"
