[package]
name = "zkchess"
version = "0.1.0"
edition = "2021"
publish = false

[dependencies]
chess-engine = "*"
serde = { version = "1", features = ["derive"] }
serde_json = "1"
clap = { version = "4", features = ["derive"] }
tokio = { version = "1", features = ["macros", "rt-multi-thread"] }
anyhow = "1"
hex = "0.4"
bincode = "1"
dialoguer = "*"
rpassword = "*"
