[package]
name = "subsquid_client"
version = "0.1.0"
edition = "2021"
publish = false

[dependencies]
url = "*"
reqwest = { version = "*", default-features = false }
tokio = { version = "*", default-features = false, features = ["rt-multi-thread", "macros", "time", "sync"] }
serde = { version = "*", features = ["derive"] }
serde_json = "*"
async-trait = "*"
