[package]
name = "jsontests"
version = "0.1.0"
edition = "2021"
publish = false

[dependencies]
evm = "0.14"
primitive-types = "0.6"
ethjson = "=0.1.0"
serde = { version = "=1.0.229", features = ["derive"] }
serde_json = "=1.0.154"
