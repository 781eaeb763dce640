[package]
name = "ai_gateway"
version = "0.1.0"
edition = "2021"
publish = false

[dependencies]
serde_json = "=1.0.151"
tokio = { version = "=1.53.2", features = ["sync", "rt", "time", "macros"] }
tiktoken-rs = "=0.12.1"
sha2 = "=0.11.0"
fancy-regex = "=0.19.2"
unicode-width = "=0.2.2"
anyhow = "*"
serde = { version = "*", features = ["derive"] }
serde_yaml = "*"
chrono = "*"
dirs = "*"
reqwest = { version = "=0.12.28", default-features = false, features = ["json"] }
reqwest-eventsource = "*"
futures-util = "*"
inquire = "*"
