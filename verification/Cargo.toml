[package]
name = "soroban-storage"
version = "0.1.0"
edition = "2021"
publish = false

[dependencies]
stellar-strkey = "=1.0.0"
stellar-xdr = { version = "=30.0.0", features = ["std", "base64"] }
ed25519-dalek = "=3.0.0"
sha2 = "=0.11.1"
serde = { version = "=1.0.229", features = ["derive"] }
serde_json = "=1.0.154"
syn = { version = "=2.0.119", features = ["full", "visit", "extra-traits"] }
quote = "=1.0.47"
proc-macro2 = { version = "=1.0.107", features = ["span-locations"] }
prometheus = { version = "=0.14.0", default-features = false }
tokio = { version = "=1.54.1", features = ["rt-multi-thread", "time", "macros"] }
stellar-rpc-client = "=30.0.0"
soroban-sdk = "=29.0.1"
