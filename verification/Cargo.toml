[package]
name = "pbhub"
version = "0.1.0"
edition = "2021"
publish = false

[dependencies]
aes-gcm = "=0.10.3"
rand = "=0.8.8"
chrono = { version = "=0.4.45", features = ["serde"] }
uuid = { version = "=1.27.0", features = ["v4", "serde"] }
serde = { version = "=1.0.229", features = ["derive"] }
serde_json = "=1.0.151"
tokio = { version = "=1.53.2", features = ["full"] }
axum = { version = "=0.7.9", features = ["ws"] }
reqwest = { version = "=0.12.28", default-features = false, features = ["json"] }
thiserror = "=1.0.69"
futures = "=0.3.34"
dotenvy = "=0.15.7"
tracing = "=0.1.44"
tracing-subscriber = "=0.3.23"
