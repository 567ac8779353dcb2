use vstd::prelude::*;

verus! {

/// The width at which a register value is read or written.
#[derive(Debug, Clone, Copy, PartialEq, Eq)]
pub enum Width {
    W32,
    W64,
}

/// How an instruction affects control flow.
#[derive(Debug, Clone, Copy, PartialEq, Eq)]
pub enum BranchKind {
    NoBranch,
    Call,
    Jump { conditional: bool, target_address: u64 },
    Return,
}

/// A memory access relative to the stack pointer.
#[derive(Debug, Clone, Copy, PartialEq, Eq)]
pub struct StackAccess {
    pub offset: i32,
    pub size_bytes: u32,
    pub read: bool,
    pub write: bool,
}

/// The value type of a function local.
#[derive(Debug)]
pub enum LocalType {
    F32,
    F64,
    I32,
    I64,
}

/// A function local: its type and whether it is passed in or returned.
#[derive(Debug)]
pub struct LocalDescriptor {
    pub argument: bool,
    pub return_value: bool,
    pub type_: LocalType,
}

} // verus!
