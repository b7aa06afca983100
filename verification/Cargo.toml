[package]
name = "quaestio_client"
version = "0.7.6"
edition = "2021"
publish = false

[dependencies]
chrono = "0.4"
uuid = { version = "1", features = ["v4"] }
serde = { version = "1", features = ["derive"] }
serde_json = "1"
thiserror = "2"
rusqlite = "0.32"
tokio = { version = "1", features = ["sync", "time", "net", "macros", "rt-multi-thread"] }
tokio-tungstenite = "0.26"
futures-util = { version = "0.3", features = ["sink"] }
dirs = "6"
