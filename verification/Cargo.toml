[package]
name = "delivery_backend"
version = "0.1.0"
edition = "2021"
publish = false

[dependencies]
jsonwebtoken = { version = "=11.1.0", features = ["use_pem", "rust_crypto"] }
dashmap = "=6.2.1"
rand = "=0.10.3"
argon2 = "=0.6.0"
chrono = "=0.4.45"
serde = { version = "=1.0.229", features = ["derive"] }
serde_json = "=1.0.151"
axum = "=0.8.9"
tokio = { version = "=1.53.2", features = ["rt-multi-thread", "macros", "net"] }

[dev-dependencies]
p256 = "=0.13.2"
