[package]
name = "ask-human"
version = "0.1.0"
edition = "2021"
publish = false

[dependencies]
axum = "=0.8.9"
futures = "=0.3.34"
iced = { version = "=0.13.1", default-features = false, features = ["tokio", "tiny-skia"] }
rmcp = { version = "=0.12.0", features = ["server", "macros", "schemars", "transport-streamable-http-server"] }
serde = { version = "=1.0.229", features = ["derive"] }
tokio = { version = "=1.54.1", features = ["rt-multi-thread", "net", "sync", "time", "macros"] }
uuid = { version = "=1.29.0", features = ["v4"] }
