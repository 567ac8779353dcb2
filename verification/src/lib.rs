//! Decoding, analysis and lowering helpers for translating AArch64 machine code
//! into WebAssembly.

pub mod arm;
pub mod arm_decoder;
pub mod aw_core;
pub mod firestorm_decoder;
pub mod module;
pub mod reboot;
pub mod riscv;

