[package]
name = "user_directory"
version = "0.1.0"
edition = "2021"
publish = false

[dependencies]
uuid = { version = "1", features = ["v4"] }
serde = { version = "1", features = ["derive"] }
serde_json = "1"
axum = "0.8"
tokio = { version = "1", features = ["full"] }
sqlx = { version = "0.8", default-features = false, features = ["runtime-tokio", "postgres", "chrono", "uuid"] }
chrono = { version = "0.4", default-features = false, features = ["std", "clock"] }
dotenv = "0.15"
tracing-subscriber = "0.3"
