[package]
name = "session_maker"
version = "0.1.0"
edition = "2021"
publish = false

[dependencies]
serenity = "0.11"
futures-locks = "0.7"
serde = { version = "1", features = ["derive"] }
serde_json = "1"
tokio = { version = "1", features = ["rt-multi-thread", "macros"] }
