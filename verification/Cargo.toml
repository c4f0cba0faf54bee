[package]
name = "termigo"
version = "0.1.0"
edition = "2021"
publish = false

[dependencies]
nanoid = "*"
tokio-util = "*"
tokio = { version = "*", features = ["full"] }
russh = "*"
serde = { version = "*", features = ["derive"] }
serde_json = "*"
async-trait = "*"
