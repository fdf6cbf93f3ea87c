[package]
name = "quecto_tools"
version = "0.1.0"
edition = "2021"
publish = false

[dependencies]
base64 = "*"
similar = "*"
dirs = "*"
unicode-normalization = "*"
uuid = { version = "1", features = ["v4"] }
serde = { version = "1", features = ["derive"] }
serde_json = "1"
tokio = { version = "1", features = ["full"] }
tempfile = "*"
reqwest = { version = "*", default-features = false }
flate2 = "*"
tar = "*"
