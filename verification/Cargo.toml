[package]
name = "session_sync"
version = "0.1.0"
edition = "2021"
publish = false

[dependencies]
uuid = { version = "*", features = ["v4"] }
chrono = "*"
serde = { version = "*", features = ["derive"] }
serde_json = "*"
socketioxide = "*"
axum = "*"
tokio = { version = "*", features = ["rt-multi-thread", "macros", "net"] }
tower = "*"
tower-http = { version = "*", features = ["cors", "fs"] }
local-ip-address = "*"
