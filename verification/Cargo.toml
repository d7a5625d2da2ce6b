[package]
name = "mmb"
version = "0.1.0"
edition = "2021"
publish = false

[dependencies]
chrono = "0.4"
rust_decimal = "1"
serde_json = "1"
serum_dex = "*"
solana-program = "1"
spl-token = { version = "3", features = ["no-entrypoint"] }
safe-transmute = "0.11"
parking_lot = "0.12"
tokio = { version = "1", features = ["rt-multi-thread", "macros", "time", "sync"] }
futures = "0.3"
log = "0.4"
anyhow = "1"
