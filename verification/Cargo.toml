[package]
name = "ibc_mini"
version = "0.1.0"
edition = "2021"
publish = false

[dependencies]
sha2 = "=0.10.9"
ed25519-dalek = { version = "=2.2.0", features = ["rand_core"] }
ark-bn254 = "=0.4.0"
ark-groth16 = "=0.4.0"
ark-relations = "=0.4.0"
ark-r1cs-std = "=0.4.0"
ark-snark = "=0.4.0"
ark-std = "=0.4.0"
ark-ff = "=0.4.2"
anyhow = "=1.0.104"
clap = { version = "=4.6.7", features = ["derive"] }
tokio = { version = "=1.53.2", features = ["macros", "rt-multi-thread"] }
serde = { version = "=1.0.229", features = ["derive"] }
cosmwasm-std = "=2.3.5"
hex = "=0.4.3"
rand = "=0.8.8"
