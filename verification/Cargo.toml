[package]
name = "azure_environment"
version = "0.1.0"
edition = "2021"
publish = false

[dependencies]
config = { version = "0.11", default-features = false }
serde = { version = "1.0", features = ["derive"] }
