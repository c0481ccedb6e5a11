[package]
name = "one-pkg"
version = "0.1.0"
edition = "2021"
publish = false

[dependencies]
clap = { version = "3", features = ["cargo"] }
dirs = "*"
serde = { version = "1", features = ["derive"] }
serde_json = "1"
