[package]
name = "engine"
version = "0.1.0"
edition = "2021"
publish = false

[dependencies]
uuid7 = "1"
crossbeam-channel = "0.5"
ron = "0.8"
serde = { version = "1", features = ["derive"] }
async-trait = "0.1"
raylib = "5"
