[package]
name = "rquest_rb"
version = "0.1.0"
edition = "2021"
publish = false

[dependencies]
wreq = "=0.15.3"
wreq-util = "=0.1.0"
tokio = { version = "*", features = ["rt-multi-thread"] }
