[package]
name = "sad"
version = "0.1.0"
edition = "2021"
publish = false

[dependencies]
regex = "*"
tokio = { version = "*", features = ["fs"] }
uuid = { version = "*", features = ["v4"] }
