//! Function bodies and constant expressions out of bytes.

pub mod names;
pub mod operator;
pub mod reader;
pub mod simple;
pub mod spelling;
pub mod types;
