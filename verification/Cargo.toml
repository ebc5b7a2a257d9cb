[package]
name = "gamesync"
version = "0.1.0"
edition = "2021"
publish = false

[dependencies]
dashmap = "*"
message-io = "*"
serde = { version = "*", features = ["derive"] }
serde_json = "*"
tokio = { version = "*", features = ["macros", "rt-multi-thread"] }
uuid = { version = "*", features = ["v4", "serde"] }
