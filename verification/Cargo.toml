[package]
name = "yurei"
version = "0.1.0"
edition = "2021"
publish = false

[dependencies]
anyhow = "1"
clap = { version = "4", features = ["derive"] }
console = "0.15"
serde_json = "1"
tokio = { version = "1", features = ["macros", "rt-multi-thread"] }
