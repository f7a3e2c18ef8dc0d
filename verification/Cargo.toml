[package]
name = "fawkes"
version = "0.1.0"
edition = "2021"
publish = false

[dependencies]
futures = "0.3"
log = "0.4"
serde = { version = "1", features = ["derive"] }
serde_json = "1"
thiserror = "1"
tokio = { version = "1", features = ["net", "rt", "sync", "time"] }
tokio-tungstenite = "*"
url = "2"
