[package]
name = "zk_inference"
version = "0.1.0"
edition = "2021"
publish = false

[dependencies]
anyhow = "1"
ark-bls12-381 = "0.4"
ark-crypto-primitives = { version = "0.4", features = ["sponge", "r1cs"] }
ark-ff = "0.4"
ark-groth16 = "0.4"
ark-r1cs-std = "0.4"
ark-relations = "0.4"
ark-serialize = "0.4"
ark-snark = "0.4"
ark-test-curves = { version = "0.4", features = ["bls12_381_scalar_field", "bls12_381_curve"] }
chain-gang = "*"
clap = { version = "4", features = ["derive"] }
hex = "0.4"
rand = "0.8"
rand_chacha = "0.3"
serde = { version = "1", features = ["derive"] }
serde_json = "1"
toml = "*"
