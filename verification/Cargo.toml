[package]
name = "eventwork"
version = "0.1.0"
edition = "2021"
publish = false

[dependencies]
async-channel = "*"
async-net = "*"
async-trait = "*"
futures-lite = "*"
serde = { version = "*", features = ["derive"] }
bincode = "1"
