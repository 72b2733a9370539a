[package]
name = "d1doctor"
version = "0.1.0"
edition = "2021"
publish = false

[dependencies]
uuid = { version = "*", features = ["v4"] }
tokio = { version = "*", features = ["full"] }
tokio-tungstenite = "*"
futures-util = "*"
rusqlite = { version = "*", features = ["bundled"] }
serde = { version = "*", features = ["derive"] }
serde_json = "*"
dirs = "*"
clap = { version = "*", features = ["derive"] }
toml = "*"
colored = "*"
which = "*"
libc = "*"
