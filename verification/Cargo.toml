[package]
name = "profile_store"
version = "0.1.0"
edition = "2021"
publish = false

[dependencies]
anyhow = "1"
axum = { version = "*", default-features = false, features = ["http1", "json", "tokio"] }
serde = { version = "*", default-features = false, features = ["derive", "std"] }
tokio = { version = "*", default-features = false, features = ["macros", "net", "rt-multi-thread"] }
