[package]
name = "linera_summary"
version = "0.1.0"
edition = "2021"
publish = false

[dependencies]
anyhow = "1"
humantime = "2"
serde = { version = "1", features = ["derive"] }
