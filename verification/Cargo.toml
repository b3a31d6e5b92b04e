[package]
name = "passwordle"
version = "0.1.0"
edition = "2021"
publish = false

[dependencies]
anyhow = "1"
axum = "0.5"
base64 = "0.13"
clap = { version = "3", features = ["derive", "env"] }
dotenv = "0.15"
md-5 = "0.10"
rand = "0.8"
redis = { version = "0.21", features = ["tokio-comp"] }
serde = { version = "1", features = ["derive"] }
serde_json = "1"
tokio = { version = "1", features = ["full"] }
uuid = { version = "1", features = ["serde"] }
