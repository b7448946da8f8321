[package]
name = "request_executor"
version = "0.1.0"
edition = "2021"
publish = false

[dependencies]
http = "=1.5.0"
reqwest = "=0.12.28"
serde = { version = "=1.0.229", features = ["derive"] }
