[package]
name = "anime_ingest"
version = "0.1.0"
edition = "2021"
publish = false

[dependencies]
anyhow = "*"
color-eyre = "*"
sqlx = { version = "=0.9.0", features = ["sqlite", "runtime-tokio"] }
tokio = { version = "*", features = ["macros", "rt-multi-thread"] }

[dev-dependencies]
serde_json = "*"
