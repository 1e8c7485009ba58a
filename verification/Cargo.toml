[package]
name = "wetdirt"
version = "0.1.0"
edition = "2021"
publish = false

[dependencies]
argon2 = "0.5"
rand = "0.8"
base64 = "0.22"
serde = { version = "1", features = ["derive"] }
serde_json = "1"
reqwest = { version = "0.12", default-features = false, features = ["json"] }
tokio = { version = "1", features = ["macros", "rt-multi-thread"] }
axum = "0.7"
