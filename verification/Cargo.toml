[package]
name = "judge_db"
version = "0.1.0"
edition = "2021"
publish = false

[dependencies]
actix-files = "0.6"
actix-web = { version = "4", default-features = false, features = ["macros"] }
anyhow = "1"
chrono = { version = "0.4", default-features = false, features = ["clock"] }
clap = { version = "4", features = ["derive"] }
dotenvy = "0.15"
env_logger = "0.11"
log = "0.4"
sqlx = { version = "0.8", default-features = false, features = ["runtime-tokio", "sqlite", "any"] }
thiserror = "1"
