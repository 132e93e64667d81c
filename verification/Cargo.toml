[package]
name = "antsim"
version = "0.1.0"
edition = "2021"
publish = false

[dependencies]
legion = { version = "0.4", default-features = false }
rand = "0.8"
uuid = { version = "0.8", features = ["v4"] }
