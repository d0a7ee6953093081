[package]
name = "amdfan"
version = "0.1.0"
edition = "2021"
publish = false

[dependencies]
anyhow = "1"
async-trait = "0.1"
dirs = "*"
tokio = { version = "1", features = ["full"] }
toml = "*"
