[package]
name = "message_payload"
version = "0.1.0"
edition = "2021"
publish = false

[dependencies]
chrono = { version = "=0.4.45", features = ["serde"] }
arma-rs = "=1.13.0"
serde = { version = "=1.0.229", features = ["derive"] }
