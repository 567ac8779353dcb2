//! A table-driven AArch64 instruction decoder.

pub mod utilities;
pub mod structures;
pub mod instructions;
pub mod decoding;
