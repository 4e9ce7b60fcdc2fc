[package]
name = "azidentity"
version = "1.1.0"
edition = "2021"
publish = false

[dependencies]
async-trait = "*"
azure_core = "1"
azure_identity = "=1.0.0"
extendr-api = "*"
tokio = { version = "1", features = ["rt-multi-thread", "sync", "time"] }
