[package]
name = "sanabotti"
version = "0.1.0"
edition = "2021"
publish = false

[dependencies]
actix = "0.13"
actix-rt = "2"
dotenvy = "0.15"
miette = "7"
poise = "0.6"
rig-core = "0.11"
serde = { version = "1", features = ["derive"] }
serde_json = "=1.0.154"
serenity = "0.12"
thiserror = "1"
tokio = { version = "1", features = ["full"] }
tracing = "0.1"
tracing-subscriber = { version = "0.3", features = ["env-filter"] }
