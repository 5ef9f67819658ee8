[package]
name = "bentoml_core"
version = "0.1.0"
edition = "2021"
publish = false

[dependencies]
data-encoding = "=2.11.1"
mac_address = "=1.2.0"
rand = "=0.8.8"
uuid = { version = "=1.27.0", features = ["v1", "rng"] }
tar = "=0.4.46"
zstd = "=0.13.3"
