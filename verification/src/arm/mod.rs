pub mod arch;
pub mod lowering;
pub mod registers;
pub mod translation;
