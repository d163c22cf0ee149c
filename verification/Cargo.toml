[package]
name = "community_provider"
version = "0.1.0"
edition = "2021"
publish = false

[dependencies]
md5 = "=0.7.0"
base64 = "=0.22.1"
rsa = "=0.9.10"
rand_chacha = "=0.3.1"
rand_core = "=0.6.4"
aes = "=0.8.4"
cbc = { version = "=0.1.2", features = ["alloc"] }
serde = { version = "=1.0.229", features = ["derive"] }
serde_json = "=1.0.154"
anyhow = "=1.0.104"
tracing = "=0.1.44"
waki = { version = "=0.5.1", features = ["multipart"] }
wit-bindgen = "=0.63.0"
