[package]
name = "voice_memos"
version = "0.1.0"
edition = "2021"
publish = false

[dependencies]
anyhow = "1"
argon2 = "0.5"
axum = { version = "0.6", features = ["headers"] }
azure_core = "0.19"
azure_storage = "0.19"
azure_storage_blobs = "0.19"
chrono = { version = "0.4", features = ["serde"] }
data-encoding = "2"
dotenvy = "0.15"
futures = "0.3"
jsonwebtoken = "9"
lettre = { version = "0.11", default-features = false, features = ["builder", "hostname", "smtp-transport", "tokio1", "tokio1-rustls-tls"] }
reqwest = { version = "0.11", default-features = false, features = ["json", "multipart", "rustls-tls", "stream"] }
ring = "0.17"
serde = { version = "1", features = ["derive"] }
serde_json = "1"
sqlx = { version = "0.7", default-features = false, features = ["chrono", "macros", "migrate", "postgres", "runtime-tokio-rustls"] }
tempfile = "3"
tokio = { version = "1", features = ["fs", "io-util", "macros", "process", "rt-multi-thread", "time"] }
tokio-util = { version = "0.7", features = ["io"] }
tower-http = { version = "0.4", features = ["cors", "limit"] }
tracing = "0.1"
tracing-subscriber = "0.3"
zxcvbn = "2"
