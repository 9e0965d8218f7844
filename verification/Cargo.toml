[package]
name = "safelang"
version = "0.1.0"
edition = "2021"
publish = false

[dependencies]
rand = "0.8"
serde_json = "1"
serde = { version = "1", features = ["derive"] }
crossbeam-channel = "0.5"
toml = "*"
dirs = "*"
