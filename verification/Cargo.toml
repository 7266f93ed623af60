[package]
name = "feetech_servo_sdk"
version = "0.3.0"
edition = "2021"
publish = false

[dependencies]
bytes = "1"
thiserror = "2"
tokio = { version = "1", features = ["full"] }
tokio-serial = { version = "5", default-features = false }
async-trait = "0.1"
clap = { version = "4", features = ["derive"] }
tracing = "0.1"
tracing-subscriber = "0.3"
anyhow = "1"
