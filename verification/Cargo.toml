[package]
name = "traits"
version = "0.1.0"
edition = "2021"
publish = false

[dependencies]
serde_json = "1"
maud = "*"
wasm-bindgen = "0.2"
js-sys = "0.3"
web-sys = { version = "0.3", features = ["Window"] }
