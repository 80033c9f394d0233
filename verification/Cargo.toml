[package]
name = "replication_game"
version = "0.1.0"
edition = "2021"
publish = false

[dependencies]
blake2 = "0.8"
clap = "2"
hex = "0.4"
memmap = "0.7"
paired = "*"
rand = "0.4"
serde = { version = "1", features = ["derive"] }
serde_json = "1"
storage-proofs = "*"
tempfile = "3"
