[package]
name = "silver_consensus"
version = "0.1.0"
edition = "2021"
publish = false

[dependencies]
blake3 = "1"
hex = "0.4"
chrono = "0.4"
tracing = "0.1"
serde = { version = "1", features = ["derive"] }
tokio = { version = "1", features = ["rt", "time"] }
