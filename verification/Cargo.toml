[package]
name = "hayate"
version = "0.1.0"
edition = "2021"
publish = false

[dependencies]
anyhow = "=1.0.104"
bincode = "=1.3.3"
blake2 = "=0.10.6"
bs58 = "=0.5.1"
cardano-lsm = "=1.0.4"
clap = { version = "=4.6.7", features = ["derive"] }
cryptoxide = "=0.4.4"
hermod = "=0.1.3"
hex = "=0.4.3"
num-bigint = "=0.4.8"
num-traits = "=0.2.19"
pallas-addresses = "=1.4.0"
pallas-crypto = "=1.4.0"
pallas-hardano = "=1.4.0"
pallas-network = "=1.4.0"
pallas-primitives = "=1.4.0"
pallas-traverse = "=1.4.0"
serde = { version = "=1.0.229", features = ["derive"] }
serde_json = "=1.0.154"
tokio = { version = "=1.54.1", features = ["full"] }
tracing = "=0.1.44"
tracing-subscriber = { version = "=0.3.23", features = ["env-filter"] }

[dev-dependencies]
tempfile = "=3.27.0"
