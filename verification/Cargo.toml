[package]
name = "crud_engine"
version = "0.1.0"
edition = "2021"
publish = false

[dependencies]
postgres = "0.19"
serde = { version = "1", features = ["derive"] }
serde_derive = "1"
serde_json = "1"
