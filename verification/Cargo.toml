[package]
name = "moksha_mint"
version = "0.1.0"
edition = "2021"
publish = false

[dependencies]
secp256k1 = { version = "*", features = ["hashes"] }
lightning-invoice = "*"
serde = { version = "*", features = ["derive"] }
anyhow = "*"
axum = "*"
tokio = { version = "*", features = ["full"] }
tower-http = { version = "*", features = ["cors", "trace"] }
tracing = "*"
tracing-subscriber = "*"
dotenvy = "*"
