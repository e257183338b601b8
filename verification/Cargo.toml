[package]
name = "bughouse"
version = "0.1.0"
edition = "2021"
publish = false

[dependencies]
shakmaty = { version = "=0.19.0", features = ["variant"] }
rand = "=0.8.8"
