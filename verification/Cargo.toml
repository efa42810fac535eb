[package]
name = "backtester"
version = "0.1.0"
edition = "2021"
publish = false

[dependencies]
chrono = "*"
csv = "*"
serde = { version = "*", features = ["derive"] }
serde_json = "*"
plotters = "*"
