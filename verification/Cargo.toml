[package]
name = "diagweave"
version = "0.1.0"
edition = "2021"
publish = false

[dependencies]
serde = { version = "=1.0.229", features = ["derive"] }
serde_json = "=1.0.154"
syn = { version = "=2.0.119", features = ["full"] }
tracing = "=0.1.44"
tracing-subscriber = "=0.3.23"
