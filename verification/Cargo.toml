[package]
name = "rule_config"
version = "0.1.0"
edition = "2021"
publish = false

[dependencies]
tokio = { version = "*", features = ["sync", "time", "fs", "macros", "rt-multi-thread"] }
