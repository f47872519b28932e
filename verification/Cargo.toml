[package]
name = "mini_executor"
version = "0.1.0"
edition = "2021"
publish = false

[dependencies]
futures = "0.3"
anyhow = "1"
mio = { version = "0.8", features = ["net", "os-poll"] }
