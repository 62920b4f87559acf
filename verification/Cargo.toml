[package]
name = "cynic_scheduler"
version = "0.1.0"
edition = "2021"
publish = false

[dependencies]
priority-queue = "2"
serde = { version = "1", features = ["derive"] }
serde_json = "1"
thiserror = "1"
anyhow = "1"
tokio = { version = "1", features = ["rt-multi-thread", "macros", "signal", "time"] }
reqwest = { version = "0.12", default-features = false, features = ["json"] }
futures = "0.3"
parking_lot = "0.12"
tracing = "0.1"
tracing-subscriber = "0.3"
