[package]
name = "ridal_server"
version = "0.1.0"
edition = "2021"
publish = false

[dependencies]
axum = "0.8"
blake3 = { version = "1", features = ["pure"] }
chrono = "0.4"
futures-util = "0.3"
serde = { version = "1", features = ["derive"] }
serde_json = "1"
tokio = { version = "1", features = ["rt-multi-thread", "net", "signal", "sync", "macros"] }
tracing = "0.1"
walkdir = "2"
webbrowser = "1"

[dev-dependencies]
tempfile = "3"
