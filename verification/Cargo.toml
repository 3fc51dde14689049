[package]
name = "switcher"
version = "0.1.0"
edition = "2021"
publish = false

[dependencies]
heapless = "0.8"
uuid = "1"
anyhow = "1"
serde = { version = "1", features = ["derive"] }
serde_json = "1"
tokio = { version = "1", features = ["full"] }
btleplug = "0.11"
async-trait = "0.1"
futures = "0.3"
log = "0.4"
env_logger = "0.11"
