[package]
name = "glowbot"
version = "0.1.0"
edition = "2021"
publish = false

[dependencies]
anyhow = "=1.0.104"
base64 = "=0.22.1"
chrono = "=0.4.45"
serde = { version = "=1.0.229", features = ["derive"] }
serde_json = "=1.0.154"
similar = "2"
serde_yaml = "=0.9.34+deprecated"
tokio = { version = "=1.54.1", features = ["process", "rt", "macros", "time"] }
