[package]
name = "wasm2rs"
version = "0.1.0"
edition = "2021"
publish = false

[dependencies]
wasmparser = "=0.249.0"
