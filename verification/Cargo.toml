[package]
name = "reth_dump"
version = "0.1.0"
edition = "2021"
publish = false

[dependencies]
hex = "0.4"
serde_json = "1"
clap = { version = "4", features = ["derive"] }
eyre = "0.6"
color-eyre = "0.6"
reth-db = "*"
