[package]
name = "wit"
version = "0.1.0"
edition = "2021"
publish = false

[dependencies]
askama = "*"
axum = "0.8"
env_logger = "0.11"
git2 = { version = "0.20", default-features = false }
mimalloc = "0.1"
serde = { version = "1", features = ["derive"] }
time = { version = "0.3", features = ["serde"] }
tokio = { version = "1", features = ["macros", "net", "rt-multi-thread"] }
tower = "0.5"
tower-http = { version = "0.6", features = ["catch-panic", "compression-gzip", "cors", "fs", "request-id", "sensitive-headers", "timeout", "trace", "util"] }
tracing = "0.1"
tracing-subscriber = { version = "0.3", features = ["env-filter"] }

[dev-dependencies]
tempfile = "3"
