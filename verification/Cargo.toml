[package]
name = "mev_indexer"
version = "0.1.0"
edition = "2021"
publish = false

[dependencies]
solana-pubkey = { version = "=2.2.1", features = ["curve25519"] }
solana-message = "=2.2.1"
solana-instruction = "=2.2.1"
solana-transaction = "=2.2.3"
solana-transaction-status-client-types = "=2.2.20"
reqwest = { version = "*", features = ["json"] }
axum = "*"
tokio = { version = "*", features = ["full"] }
tower-http = { version = "*", features = ["fs"] }
serde = { version = "*", features = ["derive"] }
serde_json = "*"
