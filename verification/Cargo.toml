[package]
name = "meshing"
version = "0.1.0"
edition = "2021"
publish = false

[dependencies]
wasm-bindgen = "*"
js-sys = "*"
serde = "*"
serde-wasm-bindgen = "*"
thiserror = "*"
