[package]
name = "huff_utils"
version = "0.1.0"
edition = "2021"
publish = false

[dependencies]
tiny-keccak = { version = "=2.0.2", features = ["keccak"] }
uuid = { version = "=1.29.1", features = ["serde"] }
toml = "=0.5.11"
serde = { version = "=1.0.229", features = ["derive", "rc"] }
serde_json = "=1.0.154"
ethers-core = { version = "2", default-features = false }
