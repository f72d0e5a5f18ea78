[package]
name = "hyphenate"
version = "0.1.0"
edition = "2021"
publish = false

[dependencies]
hypher = "*"
toml = "*"
serde = { version = "*", features = ["derive"] }
xml-rpc = "*"
