[package]
name = "trackerbot"
version = "0.1.0"
edition = "2021"
publish = false

[dependencies]
axum = "=0.8.9"
dotenvy = "=0.15.7"
jsonwebtoken = "=11.1.0"
octocrab = "=0.47.1"
tokio = { version = "=1.53.2", features = ["macros", "rt-multi-thread", "net"] }
tracing = "=0.1.44"
tracing-subscriber = "=0.3.23"
