pub mod arch;
pub mod instruction;
pub mod decode;
