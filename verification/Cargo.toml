[package]
name = "shortlink"
version = "0.1.0"
edition = "2021"
publish = false

[dependencies]
rand = "0.8"
chrono = { version = "0.4", features = ["serde"] }
serde = { version = "1", features = ["derive"] }
sqlx = { version = "0.7", default-features = false, features = ["runtime-tokio", "sqlite", "chrono"] }
actix-web = { version = "4", default-features = false, features = ["macros"] }
actix-cors = "0.7"
actix-files = "0.6"
actix-rt = "2"
env_logger = "0.11"
futures = "0.3"
