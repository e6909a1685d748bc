[package]
name = "benchmark_executor"
version = "0.1.0"
edition = "2021"
publish = false

[dependencies]
prometheus = "*"
clap = { version = "*", features = ["derive"] }
serde = { version = "*", features = ["derive"] }
serde_json = "*"
