[package]
name = "bca_protocol"
version = "0.1.0"
edition = "2021"
publish = false

[dependencies]
sha2 = "*"
chrono = "*"
uuid = { version = "*", features = ["v4"] }
tokio = { version = "*", features = ["full"] }
crossterm = "*"
