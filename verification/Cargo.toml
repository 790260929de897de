[package]
name = "tnid_codec"
version = "0.1.0"
edition = "2021"
publish = false

[dependencies]
tnid = { version = "=0.2.0", default-features = false, features = ["encryption"] }
wasm-bindgen = "=0.2.129"
