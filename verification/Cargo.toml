[package]
name = "alter"
version = "0.1.0"
edition = "2021"
publish = false

[dependencies]
rand = "=0.10.3"
clap = { version = "=4.6.7", features = ["derive"] }
dialoguer = "=0.12.0"
env_logger = "=0.11.11"
futures = "=0.3.34"
log = "=0.4.34"
reqwest = { version = "=0.13.5", default-features = false, features = ["stream"] }
rusqlite = { version = "=0.40.2", features = ["bundled"] }
serde = { version = "=1.0.229", features = ["derive"] }
serde_json = "=1.0.151"
tdlib = { version = "=0.10.0", features = ["dox"] }
tokio = { version = "=1.53.2", features = ["rt-multi-thread", "macros", "sync", "time", "signal"] }
