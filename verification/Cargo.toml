[package]
name = "escriba"
version = "0.1.0"
edition = "2021"
publish = false

[dependencies]
ropey = "=1.6.1"
blake3 = "=1.8.7"
awase = "=0.1.10"
tatara-lisp = "=0.4.13"
ishou-tokens = "=0.1.24"
shikumi = "=0.1.1084"
serde = { version = "=1.0.229", features = ["derive"] }
serde_json = "=1.0.154"
thiserror = "=2.0.21"
schemars = "=1.2.3"
serde_yaml = "0.9"
madori = { version = "*", default-features = false }
