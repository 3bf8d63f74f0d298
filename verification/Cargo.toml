[package]
name = "notes_store"
version = "0.1.0"
edition = "2021"
publish = false

[dependencies]
bcrypt = "0.19"
uuid = { version = "1", features = ["v4"] }
redis = { version = "1", features = ["tokio-comp"] }
reqwest = { version = "0.13", features = ["json"] }
serde = { version = "1", features = ["derive"] }
serde_json = "1"
simple_logger = "5"
