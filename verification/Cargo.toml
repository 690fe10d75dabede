[package]
name = "auto_pqdfium_rs"
version = "0.1.0"
edition = "2021"
publish = false

[dependencies]
thiserror = "1"

[dev-dependencies]
serde_json = "1"
