[package]
name = "dashboard"
version = "0.1.0"
edition = "2021"
publish = false

[dependencies]
serde_json = "*"
uuidv7 = "*"
axum = { version = "*", features = ["ws"] }
tokio = { version = "*", features = ["rt-multi-thread", "macros", "sync", "net", "signal"] }
clap = { version = "*", features = ["derive"] }
