[package]
name = "viletech"
version = "0.1.0"
edition = "2021"
publish = false

[dependencies]
byteorder = "=1.5.0"
fasthash = "=0.4.0"
regex = "=1.13.1"
mlua = { version = "=0.9.9", features = ["lua54", "vendored"] }
serde = { version = "=1.0.229", features = ["derive"] }
toml = "=0.8.23"
walkdir = "=2.5.0"
zip = { version = "=0.6.6", default-features = false, features = ["deflate"] }
home = "=0.5.12"
sha3 = "=0.10.9"
indexmap = "2"
