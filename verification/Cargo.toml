[package]
name = "guild_audit"
version = "0.1.0"
edition = "2021"
publish = false

[dependencies]
anyhow = "*"
deadpool-redis = "*"
redis = "*"
reqwest = { version = "*", default-features = false }
sqlx = { version = "*", default-features = false, features = ["runtime-tokio", "postgres"] }
tokio = { version = "*", features = ["rt", "sync", "time", "macros"] }
tracing = "*"
ollama-rs = "*"
