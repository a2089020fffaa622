[package]
name = "kaspa-miner"
version = "0.1.0"
edition = "2021"
publish = false

[dependencies]
kaspa-hashes = "*"
hex = "0.4"
serde = { version = "1", features = ["derive"] }
serde_json = "1"
toml = "0.8"
anyhow = "1"
clap = { version = "4", features = ["derive"] }
tokio = { version = "1", features = ["full"] }
num_cpus = "1"
ratatui = "0.29"
crossterm = "0.28"
