[package]
name = "validator_metrics"
version = "0.1.0"
edition = "2021"
publish = false

[dependencies]
solana-rpc-client-api = "=3.1.14"
tokio = { version = "=1.54.1", default-features = false, features = ["sync"] }
