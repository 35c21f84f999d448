[package]
name = "helios_recursion"
version = "0.1.0"
edition = "2021"
publish = false

[dependencies]
alloy-sol-types = "=0.8.26"
anyhow = "=1.0.104"
ark-bn254 = "0.5"
ark-groth16 = "0.5"
borsh = { version = "=1.8.1", features = ["derive"] }
clap = { version = "=4.6.7", features = ["derive"] }
dotenvy = "=0.15.7"
hex = "=0.4.3"
serde_cbor = "=0.11.2"
sp1-verifier = { version = "=4.2.1", features = ["ark"] }
sp1-zkvm = "=4.2.1"
tokio = { version = "=1.54.1", features = ["macros", "rt-multi-thread", "time"] }
tree_hash = "=0.9.1"
