[package]
name = "bombay"
version = "0.1.0"
edition = "2021"
publish = false

[dependencies]
axum = "=0.8.9"
bombay-behavior = "=0.25.0"
bombay-behavior-actors = "=0.25.0"
bombay-communication = "=0.1.6"
parking_lot = "=0.12.5"
thiserror = "=2.0.21"
tokio = { version = "=1.54.1", features = ["full"] }
triomphe = "=0.1.17"
