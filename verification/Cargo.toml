[package]
name = "capto"
version = "0.1.0"
edition = "2021"
publish = false

[dependencies]
serde = { version = "=1.0.229", features = ["derive"] }
serde_json = "=1.0.154"
dirs = "=7.0.0"
chrono = "=0.4.45"
uuid = { version = "=1.29.0", features = ["v4"] }
image = { version = "0.25", default-features = false, features = ["jpeg", "png"] }
