[package]
name = "concord"
version = "0.1.0"
edition = "2021"
publish = false

[dependencies]
base64 = "0.22"
chrono = { version = "0.4", default-features = false, features = ["clock", "std"] }
flate2 = "1"
futures = "0.3"
rand = "0.8"
reqwest = { version = "0.12", default-features = false, features = ["json", "multipart"] }
serde = { version = "1", features = ["derive"] }
serde_json = "1"
tokio = { version = "1", features = ["rt", "macros", "time", "sync", "fs"] }
tokio-tungstenite = "0.24"
toml = "0.8"
