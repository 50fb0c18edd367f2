[package]
name = "ghass"
version = "0.1.0"
edition = "2021"
publish = false

[dependencies]
serde = { version = "1", features = ["derive"] }
serde_yaml = "0.9"
regex = "1"
chrono = "0.4"
walkdir = "2"
anyhow = "1"
clap = { version = "4", features = ["derive"] }
tabled = "*"
