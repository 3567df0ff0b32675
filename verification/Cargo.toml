[package]
name = "tianyi_api"
version = "0.1.0"
edition = "2021"
publish = false

[dependencies]
rand = "0.8"
anyhow = "1"
serde = { version = "1", features = ["derive"] }
reqwest = { version = "0.11", default-features = false, features = ["cookies", "json"] }
tokio = { version = "1", features = ["rt-multi-thread", "macros"] }
