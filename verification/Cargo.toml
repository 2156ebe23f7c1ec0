[package]
name = "ciprobe_config"
version = "0.1.0"
edition = "2021"
publish = false

[dependencies]
semver = "1"
serde = { version = "1", features = ["derive"] }
serde_yaml = "0.9"
dotenv = "0.15"
anyhow = "1"
