[package]
name = "bobby"
version = "0.1.0"
edition = "2021"
publish = false

[dependencies]
hyper = { version = "1", features = ["full"] }
hyper-util = { version = "0.1", features = ["full"] }
tokio = { version = "1", features = ["full"] }
