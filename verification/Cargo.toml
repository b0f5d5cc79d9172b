[package]
name = "qcg_server"
version = "0.1.0"
edition = "2021"
publish = false

[dependencies]
anyhow = "1"
axum = "0.8"
camino = "1"
chrono = "0.4"
futures-util = "0.3"
hex = "0.4"
libc = "0.2"
reqwest = { version = "0.12", default-features = false, features = ["json", "stream"] }
serde = { version = "1", features = ["derive"] }
serde_json = "1"
sha2 = "0.10"
tokio = { version = "1", features = ["rt", "rt-multi-thread", "sync", "time", "net", "signal", "macros", "fs", "io-util"] }
tokio-stream = { version = "0.1", features = ["sync"] }
tokio-util = { version = "0.7", features = ["io", "rt"] }
tower-http = { version = "0.6", features = ["cors"] }
tracing = "0.1"
url = "2"
uuid = { version = "1", features = ["v7"] }
