[package]
name = "nanocurrency-protocol"
version = "0.1.0"
edition = "2021"
publish = false

[dependencies]
byteorder = "=1.5.0"
bytes = "=0.4.12"
ed25519-dalek = "0.9"
nanocurrency-types = "=0.3.19"
tokio-codec = "=0.1.2"
