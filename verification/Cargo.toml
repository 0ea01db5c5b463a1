[package]
name = "nulctl"
version = "0.1.0"
edition = "2021"
publish = false

[dependencies]
clap = { version = "4", features = ["derive"] }
colored = "*"
crossterm = "*"
dirs = "*"
ed25519-dalek = "2"
getrandom = "0.3"
hex = "0.4"
ratatui = "*"
serde = { version = "1", features = ["derive"] }
serde_json = "1"
tokio = { version = "1", features = ["full"] }
uuid = { version = "1", features = ["v4"] }
