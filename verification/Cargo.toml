[package]
name = "lykin"
version = "0.1.0"
edition = "2021"
publish = false

[dependencies]
sled = "0.34"
chrono = "0.4"
serde_json = "1"
futures = "0.3"
async-std = "1"
golgi = "*"
