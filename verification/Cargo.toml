[package]
name = "llama_bot"
version = "0.1.0"
edition = "2021"
publish = false

[dependencies]
anyhow = "*"
clap = { version = "*", features = ["derive"] }
matrix-sdk = { version = "=0.18.0", default-features = false }
reqwest = { version = "*", default-features = false, features = ["json"] }
serde_json = "*"
tokio = { version = "*", features = ["macros", "rt-multi-thread"] }
