[package]
name = "level_engine"
version = "0.1.0"
edition = "2021"
publish = false

[dependencies]
anyhow = "1"
mlua = { version = "0.10", features = ["lua54", "vendored"] }
notify = "6"
rand = "0.8"
regex = "1"
