[package]
name = "picasound"
version = "0.1.0"
edition = "2021"
publish = false

[dependencies]
petgraph = "0.6"
rand = "0.8"
realfft = "3"
serde = { version = "1", features = ["derive"] }
serde_yaml = "0.9"
