[package]
name = "holiday_calendar"
version = "0.1.0"
edition = "2021"
publish = false

[dependencies]
askama = "0.12"
axum = "0.7"
chrono = "0.4"
chrono-tz = "*"
clap = { version = "4", features = ["derive"] }
reqwest = { version = "0.12", default-features = false }
serde = { version = "1", features = ["derive"] }
serde_json = "1"
tokio = { version = "1", features = ["macros", "rt-multi-thread", "net", "sync"] }
tower-http = { version = "0.5", features = ["compression-gzip", "fs"] }
tracing = "0.1"
tracing-subscriber = "0.3"
