[package]
name = "icloud_recovery_desktop"
version = "0.1.6"
edition = "2021"
publish = false

[dependencies]
url = "2"
serde = { version = "1", features = ["derive"] }
serde_json = "1"
reqwest = { version = "0.12", default-features = false, features = ["json", "rustls-tls"] }
tokio = { version = "1", features = ["macros", "rt-multi-thread", "time", "sync", "process"] }
tokio-tungstenite = "0.26"
futures-util = { version = "0.3", features = ["sink"] }
tempfile = "3"
thiserror = "2"
tracing-subscriber = "0.3"
