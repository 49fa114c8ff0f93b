[package]
name = "openai_gpt_broker"
version = "0.1.0"
edition = "2021"
publish = false

[dependencies]
sled = "*"
anyhow = "*"
serde = { version = "*", features = ["derive"] }
serde_json = "*"
tokio = { version = "*", features = ["rt-multi-thread", "macros"] }
reqwest = { version = "*", default-features = false, features = ["json", "rustls-tls"] }
