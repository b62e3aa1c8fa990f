[package]
name = "kemuri"
version = "0.1.0"
edition = "2021"
publish = false

[dependencies]
sha2 = "=0.10.9"
hex = "=0.4.3"
chrono = "=0.4.45"
rand = "=0.8.8"
url = "=2.5.8"
serde = { version = "=1.0.229", features = ["derive"] }
serde_json = "=1.0.154"
serde_yaml = "=0.9.34"
uuid = { version = "=1.29.0", features = ["v4"] }
clap = { version = "4", features = ["derive"] }
anyhow = "1"
