[package]
name = "phase1_coordinator"
version = "0.1.0"
edition = "2021"
publish = false

[dependencies]
blake2 = "*"
chrono = "*"
hex = "*"
regex = "*"
serde = { version = "*", features = ["derive"] }
serde_json = "*"
