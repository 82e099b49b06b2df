[package]
name = "processing_bank_transactions_with_rust"
version = "0.1.0"
edition = "2021"
publish = false

[dependencies]
csv = "1.1"
serde = { version = "1.0", features = ["derive"] }
serde_derive = "1.0"
log = "0.4"
env_logger = "0.9"
thiserror = "1.0"
