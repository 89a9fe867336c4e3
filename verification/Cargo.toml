[package]
name = "rewms"
version = "0.1.0"
edition = "2021"
publish = false

[dependencies]
image = { version = "0.24", default-features = false, features = ["png"] }
axum = "0.6"
tokio = { version = "1", features = ["macros", "rt-multi-thread"] }
reqwest = { version = "0.11", default-features = false, features = ["json", "stream"] }
futures = "0.3"
clap = { version = "4", features = ["derive"] }
serde = { version = "1", features = ["derive"] }
tower-http = { version = "0.4", features = ["compression-gzip", "cors", "trace"] }
tracing = "0.1"
tracing-subscriber = "0.3"
http = "0.2"
