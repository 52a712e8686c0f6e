[package]
name = "segrep"
version = "0.1.0"
edition = "2021"
publish = false

[dependencies]
anyhow = "=1.0.104"
thiserror = "=1.0.69"
tokenizers = { version = "=0.23.2", features = ["http"] }
rust-bert = "=0.23.0"
