[package]
name = "kovi"
version = "0.1.0"
edition = "2021"
publish = false

[dependencies]
chrono = "0.4"
rand = "0.8"
serde = { version = "1", features = ["derive"] }
serde_json = "1"
tokio = { version = "1", features = ["rt-multi-thread", "sync", "macros", "time", "signal"] }
tokio-tungstenite = "0.24"
futures-util = "0.3"
toml = "0.8"
log = "0.4"
parking_lot = "0.12"
croner = "2"
