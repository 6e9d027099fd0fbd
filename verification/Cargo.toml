[package]
name = "cryptfolio"
version = "0.1.0"
edition = "2021"
publish = false

[dependencies]
async-trait = "0.1"
bincode = "1.3"
chrono = { version = "0.4", default-features = false, features = ["std"] }
serde = { version = "1", features = ["derive"] }
solana-program = "1.18"
solana-sdk = "1.18"
sqlite3 = "0.24"
thiserror = "1"
