//! Construction of mangled linkage symbols: flat, `$`-separated names built
//! from ordered sequences of naming segments, so that every generated entity
//! carries a globally unique, stable external name.

pub mod digits;
pub mod laws;
pub mod symbol;
