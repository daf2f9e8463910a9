[package]
name = "coh3_log"
version = "0.1.0"
edition = "2021"
publish = false

[dependencies]
nom = "=7.1.3"
serde = { version = "=1.0.229", features = ["derive"] }
serde_json = "1"
