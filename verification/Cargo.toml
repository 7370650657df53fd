[package]
name = "herdr_queue"
version = "0.1.0"
edition = "2021"
publish = false

[dependencies]
bytes = "1"
rusqlite = { version = "0.32", features = ["bundled"] }
serde = { version = "1", features = ["derive"] }
serde_json = "1"
time = { version = "0.3", features = ["formatting"] }
tracing = "0.1"
uuid = { version = "1", features = ["v4"] }
