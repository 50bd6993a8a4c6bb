[package]
name = "edgemouse"
version = "0.1.0"
edition = "2021"
publish = false

[dependencies]
ring = "0.17"
spake2 = "0.4"
serde = { version = "1", features = ["derive"] }
toml = "0.8"
ctrlc = "3"
