[package]
name = "duckity"
version = "0.1.0"
edition = "2021"
publish = false

[dependencies]
base64 = "*"
num-bigint = "*"
reqwest = { version = "*", default-features = false, features = ["json"] }
serde = { version = "*", features = ["derive"] }
thiserror = "*"
