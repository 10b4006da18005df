[package]
name = "oracle_program"
version = "0.1.0"
edition = "2021"
publish = false

[dependencies]
anyhow = "1"
ethabi = "18"
seda-sdk-rs = "*"
serde = { version = "1", features = ["derive"] }
serde_json = "1"
