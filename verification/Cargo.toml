[package]
name = "wasm_mt_pool"
version = "0.1.0"
edition = "2021"
publish = false

[dependencies]
wasm-mt = "*"
wasm-bindgen = "*"
wasm-bindgen-futures = "*"
js-sys = "*"
