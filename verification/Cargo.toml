[package]
name = "salticidae"
version = "0.1.0"
edition = "2021"
publish = false

[dependencies]
rust-crypto = "0.2"
tokio = { version = "1", features = ["net", "rt", "rt-multi-thread", "io-util", "sync", "macros", "time"] }
async-trait = "0.1"
