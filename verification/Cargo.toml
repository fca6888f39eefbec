[package]
name = "colourful_logger"
version = "0.1.0"
edition = "2021"
publish = false

[dependencies]
backtrace = "=0.3.76"
chrono = "=0.4.45"
colored = "=2.2.0"
dotenvy = "=0.15.7"
pad = "=0.1.6"
serde = { version = "=1.0.229", features = ["derive"] }
serde_json = "=1.0.154"

[dev-dependencies]
regex = "=1.13.1"
