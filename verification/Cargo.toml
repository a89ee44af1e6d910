[package]
name = "context_harness"
version = "0.1.0"
edition = "2021"
publish = false

[dependencies]
shlex = "1.3"
serde = { version = "1", features = ["derive"] }
serde_json = "1"
anyhow = "1"
clap = { version = "4", features = ["derive"] }
