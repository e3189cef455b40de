[package]
name = "bee"
version = "0.1.0"
edition = "2021"
publish = false

[dependencies]
bee-ternary = "*"
bee-common = "*"
ed25519-dalek = "1"
blake2 = "0.9"
rand = "0.7"
hex = "0.4"
bytemuck = "1"
zeroize = "1"
log = "0.4"
futures = "0.3"
async-std = "1"
async-trait = "0.1"
flume = "*"
dashmap = "*"
internment = "*"
pin-project = "1"
serde = { version = "1", features = ["derive"] }
thiserror = "1"
