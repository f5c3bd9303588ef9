[package]
name = "cdn"
version = "0.1.0"
edition = "2021"
publish = false

[dependencies]
dashmap = "=6.2.1"
regex = "=1.13.1"
tee_morphosis = "=1.3.1"
image = { version = "=0.25.10", default-features = false, features = ["png"] }
tokio = { version = "=1.54.1", features = ["full"] }
reqwest = { version = "=0.13.5", default-features = false }
ohkami = { version = "=0.24.9", features = ["rt_tokio", "openapi"] }
serde = { version = "=1.0.229", features = ["derive"] }
serde_json = "=1.0.154"
thiserror = "=2.0.21"
tracing = "=0.1.44"
tracing-subscriber = { version = "=0.3.23", features = ["env-filter"] }
dotenvy = "=0.15.7"
futures = "=0.3.34"
