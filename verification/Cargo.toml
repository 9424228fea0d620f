[package]
name = "zeth"
version = "0.1.0"
edition = "2021"
publish = false

[dependencies]
alloy-primitives = { version = "=1.7.3", default-features = false, features = ["k256", "rlp", "map"] }
alloy-rlp = { version = "=0.3.17", default-features = false }
alloy-trie = { version = "=0.9.9", default-features = false }
alloy-chains = { version = "=0.2.39", default-features = false }
alloy-hardforks = { version = "=0.4.11", default-features = false }
alloy-consensus = { version = "=1.8.3", default-features = false }
alloy-evm = { version = "=0.26.4", default-features = false }
revm = { version = "=34.0.0", default-features = false }
anyhow = "1"
bytemuck = "=1.25.2"
ml-kem = "=0.2.3"
rand_chacha = "=0.3.1"
rand_core = { version = "=0.6.4", features = ["getrandom"] }
risc0-zkvm = { version = "=3.0.6", default-features = false }
serde = { version = "1", features = ["derive"] }
serde_json = "1"
serde_with = { version = "3", default-features = false, features = ["macros"] }
tempfile = "3"
tokio = { version = "1", features = ["rt"] }
tracing = "0.1"
