[package]
name = "chat_core"
version = "0.1.0"
edition = "2021"
publish = false

[dependencies]
redb = "2"
chrono = "0.4"
axum = { version = "0.7", features = ["ws"] }
tokio = { version = "1", features = ["rt-multi-thread", "macros", "sync", "signal", "net", "fs"] }
tokio-util = { version = "0.7", features = ["net"] }
futures-util = "0.3"
serde = { version = "1", features = ["derive"] }
rmp-serde = "1"
log = "0.4"
env_logger = "0.11"
hyper = { version = "1", features = ["server"] }
hyper-util = { version = "0.1", features = ["tokio", "server", "server-auto"] }
tower = "0.4"
tower-http = { version = "0.5", features = ["fs"] }
