[package]
name = "agent_sandbox"
version = "0.1.0"
edition = "2021"
publish = false

[dependencies]
chrono = "*"
clap = { version = "*", features = ["derive"] }
hex = "*"
sha2 = "*"
similar = "*"
tracing = "*"
tracing-subscriber = "*"
uuid = { version = "*", features = ["v4"] }
walkdir = "*"
