[package]
name = "fun8s_lite"
version = "0.1.0"
edition = "2021"
publish = false

[dependencies]
base64 = "0.13"
ipnetwork = "0.17"
serde = { version = "1", features = ["derive"] }
serde_json = "1"
clap = "2"
cmd_lib = "1"
