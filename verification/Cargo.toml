[package]
name = "chatview"
version = "0.1.0"
edition = "2021"
publish = false

[dependencies]
unicode-width = "*"
ratatui = "*"
agent-client-protocol = "*"
serde = { version = "*", features = ["derive"] }
serde_json = "*"
tokio = { version = "*", features = ["rt", "fs"] }
reqwest = { version = "*", default-features = false, features = ["json"] }
anyhow = "*"
dirs = "*"
tracing = "*"
