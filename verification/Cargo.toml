[package]
name = "nautilus_coinbase"
version = "0.1.0"
edition = "2021"
publish = false

[dependencies]
ahash = "0.8"
anyhow = "1"
aws-lc-rs = "1"
base64 = "0.22"
chrono = "0.4"
log = "0.4"
pem = "3"
rust_decimal = "1"
serde = { version = "1", features = ["derive"] }
serde_json = "1"
strum = { version = "0.27", features = ["derive"] }
tokio = { version = "1", features = ["sync", "macros", "rt"] }
tokio-tungstenite = "*"
zeroize = { version = "1", features = ["derive"] }
