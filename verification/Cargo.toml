[package]
name = "liquidity_delivery"
version = "0.1.0"
edition = "2021"
publish = false

[dependencies]
alloy = { version = "=1.8.3", default-features = false, features = ["std", "signers", "signer-local", "sol-types"] }
hex = "=0.4.3"
bs58 = "=0.5.1"
serde = { version = "=1.0.229", features = ["derive"] }
serde_yaml = "=0.9.34"
tokio = { version = "=1.54.1", features = ["rt-multi-thread", "macros", "sync", "time"] }
