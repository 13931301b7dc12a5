[package]
name = "mrpc"
version = "0.1.0"
edition = "2021"
publish = false

[dependencies]
anyhow = "1"
async-trait = "0.1"
bytes = "1"
futures = "0.3"
log = "0.4"
serde = { version = "1", features = ["derive"] }
serde_json = "1"
tokio = { version = "1", features = ["net", "rt", "rt-multi-thread", "sync", "macros", "io-util", "time"] }
tokio-serde = { version = "0.8", features = ["json"] }
tokio-tungstenite = "0.20"
tokio-util = { version = "0.7", features = ["codec"] }
