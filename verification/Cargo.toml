[package]
name = "incident_core"
version = "0.1.0"
edition = "2021"
publish = false

[dependencies]
axum = { version = "=0.8.9", features = ["multipart"] }
bcrypt = "=0.19.3"
chrono = "=0.4.45"
dotenvy = "=0.15.7"
jsonwebtoken = { version = "=11.1.0", features = ["rust_crypto"] }
lettre = { version = "=0.11.23", default-features = false, features = ["smtp-transport", "builder", "hostname", "pool", "tokio1"] }
serde = { version = "=1.0.229", features = ["derive"] }
serde_json = "=1.0.151"
socketioxide = "=0.18.7"
tokio = { version = "=1.53.2", features = ["full"] }
tower-http = { version = "=0.7.1", features = ["fs", "cors"] }
tracing = "=0.1.44"
tracing-subscriber = { version = "=0.3.23", features = ["env-filter"] }
uuid = { version = "=1.27.0", features = ["v4"] }
