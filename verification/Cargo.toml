[package]
name = "renderer_engine"
version = "0.1.0"
edition = "2021"
publish = false

[dependencies]
librespot-core = "=0.8.0"
serde = { version = "=1.0.229", features = ["derive"] }
serde_json = "=1.0.154"
tokio = { version = "=1.54.1", features = ["rt-multi-thread", "macros", "sync", "time"] }
env_logger = "=0.11.11"
http = "=1.5.0"
vergen = { version = "=9.0.6", default-features = false }
