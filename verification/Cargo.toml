[package]
name = "quic_pool"
version = "0.1.0"
edition = "2021"
publish = false

[dependencies]
anyhow = "1"
log = "0.4"
quinn = "*"
solana-sdk = { version = "*", default-features = false }
tokio = { version = "1", features = ["sync", "time", "macros", "rt"] }
