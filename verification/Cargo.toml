[package]
name = "fah_pauser"
version = "0.1.0"
edition = "2021"
publish = false

[dependencies]
dirs = "*"
fahapi = "*"
serde = { version = "*", features = ["derive"] }
serde_yaml = "*"
