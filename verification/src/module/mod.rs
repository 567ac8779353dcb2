pub mod memory;
pub mod expression;
pub mod eval;
