[package]
name = "bencher_core"
version = "0.1.0"
edition = "2021"
publish = false

[dependencies]
chrono = "*"
email-address-parser = "*"
rand = "*"
serde = { version = "*", features = ["derive"] }
serde_json = "*"
slug = "*"
uuid = { version = "*", features = ["v4"] }
