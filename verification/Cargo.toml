[package]
name = "guess_number"
version = "0.1.0"
edition = "2021"
publish = false

[dependencies]
chrono = { version = "0.4", default-features = false, features = ["clock"] }
near-sdk = { version = "=4.1.1", default-features = false }
rand = "=0.8.8"
serde = { version = "=1.0.229", features = ["derive"] }
serde_json = "=1.0.154"
tokio = { version = "1", default-features = false, features = ["sync", "time"] }
url = "2"
uuid = { version = "=1.29.0", features = ["v4"] }
