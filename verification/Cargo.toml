[package]
name = "ncm_decoder"
version = "0.1.0"
edition = "2021"
publish = false

[dependencies]
aes = "0.8"
anyhow = "1"
hex = "0.4"
serde = { version = "1", features = ["derive"] }
