[package]
name = "persistent_counter"
version = "0.1.0"
edition = "2021"
publish = false

[dependencies]
chrono = "0.4"
axum = "0.7"
tokio = { version = "1", features = ["rt-multi-thread", "macros", "time", "net"] }
