[package]
name = "marathon_api"
version = "0.1.0"
edition = "2021"
publish = false

[dependencies]
uuid = { version = "=1.29.0", features = ["v4", "serde"] }
serde = { version = "=1.0.229", features = ["derive"] }
serde_json = "=1.0.154"
anyhow = "=1.0.104"
axum = "=0.8.9"
tokio = { version = "=1.54.1", features = ["rt", "rt-multi-thread", "macros", "net", "sync", "time"] }
tower-http = { version = "=0.6.11", features = ["trace"] }
reqwest = { version = "=0.12.28", default-features = false, features = ["blocking", "json"] }
clap = { version = "=4.6.7", features = ["derive"] }
tracing = "=0.1.44"
tracing-subscriber = { version = "=0.3.23", features = ["env-filter", "fmt"] }
