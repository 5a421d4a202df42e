[package]
name = "instagram_feed"
version = "0.1.0"
edition = "2021"
publish = false

[dependencies]
serde = { version = "*", features = ["derive"] }
serde_json = "*"
chrono = "*"
futures = "*"
reqwest = { version = "*", default-features = false }
actix-web = { version = "*", default-features = false, features = ["macros"] }
