[package]
name = "reeve"
version = "0.2.0"
edition = "2021"
publish = false

[dependencies]
chrono = "0.4"
rhai = { version = "1.19", features = ["sync", "serde"] }
serde = { version = "1", features = ["derive"] }
serde_json = "1"
serde_yaml = "0.9"
thiserror = "1"
uuid = { version = "1", features = ["v4"] }
clap = { version = "4", features = ["derive"] }
wait-timeout = "0.2"

[dev-dependencies]
tempfile = "3"
