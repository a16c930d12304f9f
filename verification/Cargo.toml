[package]
name = "brp_inspector"
version = "0.1.0"
edition = "2021"
publish = false

[dependencies]
ehttp = "*"
serde_json = "*"
