[package]
name = "simple_http_server"
version = "0.1.0"
edition = "2021"
publish = false

[dependencies]
axum = "0.7"
camino = { version = "1", features = ["serde1"] }
mime = "0.3"
serde = { version = "1", features = ["derive"] }
tokio = { version = "1", features = ["rt-multi-thread", "macros", "net", "fs"] }
toml = "0.8"
