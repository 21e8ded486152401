[package]
name = "dina"
version = "0.1.0"
edition = "2021"
publish = false

[dependencies]
sha2 = "0.10"
ed25519-dalek = { version = "2", features = ["rand_core"] }
serde = { version = "1", features = ["derive"] }
serde_json = "1"
serde-big-array = "0.5"
hex = "0.4"
anyhow = "1"
dirs = "5"
chrono = "0.4"
rand = "0.8"
