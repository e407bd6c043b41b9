[package]
name = "zsfm"
version = "0.1.0"
edition = "2021"
publish = false

[dependencies]
anyhow = "1"
candle-core = "*"
candle-nn = "*"
clap = { version = "4", features = ["derive"] }
csv = "1"
half = "2"
hdf5 = "*"
indicatif = "*"
rayon = "1"
safetensors = "*"
serde = { version = "1", features = ["derive"] }
serde_json = "1"
simdeez = "*"
zip = { version = "*", default-features = false, features = ["deflate"] }
