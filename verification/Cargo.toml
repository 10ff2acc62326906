[package]
name = "kdeconnect"
version = "0.1.0"
edition = "2021"
publish = false

[dependencies]
anyhow = "1"
base64 = "0.22"
dirs = "5"
notify-rust = "4"
serde = { version = "1", features = ["derive"] }
serde_json = "1"
tokio = { version = "1", features = ["fs", "rt"] }
uuid = { version = "1", features = ["v4"] }
