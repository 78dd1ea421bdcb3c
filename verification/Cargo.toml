[package]
name = "vvtec"
version = "0.1.0"
edition = "2021"
publish = false

[dependencies]
solana-program = "=5.1.0"
near-jsonrpc-client = "=0.22.0"
near-jsonrpc-primitives = "=0.37.4"
near-primitives = "=0.37.4"
near-crypto = "=0.37.4"
serde = "=1.0.229"
serde_json = "=1.0.151"
tokio = { version = "=1.53.2", features = ["macros", "rt-multi-thread"] }
