pub mod instructions;
pub mod instruction_helper;
pub mod module;
pub mod translation;
pub mod listing;
