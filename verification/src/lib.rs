//! Translation of WebAssembly modules to Rust source.

pub mod codegen;
pub mod decode;
pub mod error;
pub mod ops;
pub mod text;
pub mod wasm;
