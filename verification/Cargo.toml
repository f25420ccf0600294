[package]
name = "padu"
version = "0.1.0"
edition = "2021"
publish = false

[dependencies]
uuid = { version = "1", features = ["v4"] }
url = "2"
libc = "0.2"
