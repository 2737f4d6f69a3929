[package]
name = "gamm"
version = "0.1.0"
edition = "2021"
publish = false

[dependencies]
clap = { version = "4", features = ["derive"] }
dialoguer = "*"
dirs = "*"
serde = { version = "1", features = ["derive"] }
serde_json = "1"
