[package]
name = "chain_allowlist"
version = "0.1.0"
edition = "2021"
publish = false

[dependencies]
serde_json = "*"
serde = { version = "*", features = ["derive"] }
num_enum = "*"
poem = "*"
poem-openapi = "*"
tokio = { version = "*", features = ["macros", "rt-multi-thread"] }
