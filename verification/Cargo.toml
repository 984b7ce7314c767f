[package]
name = "dlv_sim"
version = "0.1.0"
edition = "2021"

[dependencies]
arrow = "*"
chrono = "*"
parquet = "*"
serde = { version = "1", features = ["derive"] }
serde_json = "1"
