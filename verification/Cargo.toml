[package]
name = "project"
version = "0.1.0"
edition = "2021"
publish = false

[dependencies]
anyhow = "1"
globset = "0.4"
serde = { version = "1", features = ["derive"] }
serde_json = "1"
toml = "0.8"
url = "2"
uuid = { version = "1", features = ["v4"] }
which = "6"
