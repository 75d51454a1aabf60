[package]
name = "autoflow"
version = "0.1.0"
edition = "2021"
publish = false

[dependencies]
petgraph = "*"
uuid = { version = "*", features = ["v4"] }
serde_json = "*"
thiserror = "*"
