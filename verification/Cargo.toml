[package]
name = "kosh_bridge"
version = "0.1.0"
edition = "2021"
publish = false

[dependencies]
sha3 = "=0.12.0"
k256 = "=0.14.0"
hex = "=0.4.3"
ethers-core = "=2.0.14"
serde = "=1.0.229"
serde_json = "=1.0.151"
ic-cdk = "=0.13.6"
candid = "=0.10.37"
once_cell = "=1.21.4"
num-traits = "=0.2.19"
