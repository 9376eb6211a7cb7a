[package]
name = "cgip"
version = "0.1.0"
edition = "2021"
publish = false

[dependencies]
serde_json = "1"
toml = "*"
dirs = "*"
reqwest = { version = "*", default-features = false, features = ["blocking"] }
