use vstd::prelude::*;
use crate::arm_decoder::structures::Register;

verus! {

/// The number of identifiers reserved for the general purpose registers, the stack
/// pointer and the zero register; the flags are numbered from here.
pub const GP_ID_COUNT: u32 = 34;

/// General purpose registers that get a local allocated (X0..X30, without XZR).
pub const GP_REGISTER_COUNT: u32 = 31;

/// The identifier of a register: X0..X30 are 0..30, SP is 31 and XZR is 32; the
/// SIMD and floating-point registers follow the flags, from `GP_ID_COUNT + 4` on.
pub open spec fn register_id(register: Register) -> u32 {
    match register {
        Register::X0 => 0,
        Register::X1 => 1,
        Register::X2 => 2,
        Register::X3 => 3,
        Register::X4 => 4,
        Register::X5 => 5,
        Register::X6 => 6,
        Register::X7 => 7,
        Register::X8 => 8,
        Register::X9 => 9,
        Register::X10 => 10,
        Register::X11 => 11,
        Register::X12 => 12,
        Register::X13 => 13,
        Register::X14 => 14,
        Register::X15 => 15,
        Register::X16 => 16,
        Register::X17 => 17,
        Register::X18 => 18,
        Register::X19 => 19,
        Register::X20 => 20,
        Register::X21 => 21,
        Register::X22 => 22,
        Register::X23 => 23,
        Register::X24 => 24,
        Register::X25 => 25,
        Register::X26 => 26,
        Register::X27 => 27,
        Register::X28 => 28,
        Register::X29 => 29,
        Register::X30 => 30,
        Register::SP => 31,
        Register::XZR => 32,
        Register::V0 => 38,
        Register::V1 => 39,
        Register::V2 => 40,
        Register::V3 => 41,
        Register::V4 => 42,
        Register::V5 => 43,
        Register::V6 => 44,
        Register::V7 => 45,
        Register::V8 => 46,
        Register::V9 => 47,
        Register::V10 => 48,
        Register::V11 => 49,
        Register::V12 => 50,
        Register::V13 => 51,
        Register::V14 => 52,
        Register::V15 => 53,
        Register::V16 => 54,
        Register::V17 => 55,
        Register::V18 => 56,
        Register::V19 => 57,
        Register::V20 => 58,
        Register::V21 => 59,
        Register::V22 => 60,
        Register::V23 => 61,
        Register::V24 => 62,
        Register::V25 => 63,
        Register::V26 => 64,
        Register::V27 => 65,
        Register::V28 => 66,
        Register::V29 => 67,
        Register::V30 => 68,
        Register::V31 => 69,
    }
}

/// The identifier of `register`.
pub fn id(register: Register) -> (r: u32)
    ensures
        r == register_id(register),
{
    match register {
        Register::X0 => 0,
        Register::X1 => 1,
        Register::X2 => 2,
        Register::X3 => 3,
        Register::X4 => 4,
        Register::X5 => 5,
        Register::X6 => 6,
        Register::X7 => 7,
        Register::X8 => 8,
        Register::X9 => 9,
        Register::X10 => 10,
        Register::X11 => 11,
        Register::X12 => 12,
        Register::X13 => 13,
        Register::X14 => 14,
        Register::X15 => 15,
        Register::X16 => 16,
        Register::X17 => 17,
        Register::X18 => 18,
        Register::X19 => 19,
        Register::X20 => 20,
        Register::X21 => 21,
        Register::X22 => 22,
        Register::X23 => 23,
        Register::X24 => 24,
        Register::X25 => 25,
        Register::X26 => 26,
        Register::X27 => 27,
        Register::X28 => 28,
        Register::X29 => 29,
        Register::X30 => 30,
        Register::SP => 31,
        Register::XZR => 32,
        Register::V0 => 38,
        Register::V1 => 39,
        Register::V2 => 40,
        Register::V3 => 41,
        Register::V4 => 42,
        Register::V5 => 43,
        Register::V6 => 44,
        Register::V7 => 45,
        Register::V8 => 46,
        Register::V9 => 47,
        Register::V10 => 48,
        Register::V11 => 49,
        Register::V12 => 50,
        Register::V13 => 51,
        Register::V14 => 52,
        Register::V15 => 53,
        Register::V16 => 54,
        Register::V17 => 55,
        Register::V18 => 56,
        Register::V19 => 57,
        Register::V20 => 58,
        Register::V21 => 59,
        Register::V22 => 60,
        Register::V23 => 61,
        Register::V24 => 62,
        Register::V25 => 63,
        Register::V26 => 64,
        Register::V27 => 65,
        Register::V28 => 66,
        Register::V29 => 67,
        Register::V30 => 68,
        Register::V31 => 69,
    }
}

/// A condition flag.
#[derive(Debug, Clone, Copy, PartialEq, Eq)]
pub enum Flag {
    Carry,
    Negative,
    Zero,
    Overflow,
}

/// The position of a flag among the flags.
pub open spec fn flag_index(flag: Flag) -> u32 {
    match flag {
        Flag::Carry => 0,
        Flag::Negative => 1,
        Flag::Zero => 2,
        Flag::Overflow => 3,
    }
}

impl Flag {
    /// The identifier of the flag: the flags follow the general purpose registers.
    pub fn id(self) -> (r: u32)
        ensures
            r == GP_ID_COUNT + flag_index(self),
    {
        match self {
            Flag::Carry => GP_ID_COUNT,
            Flag::Negative => GP_ID_COUNT + 1,
            Flag::Zero => GP_ID_COUNT + 2,
            Flag::Overflow => GP_ID_COUNT + 3,
        }
    }
}

/// The identifiers of the four flags, in the order of `Flag`.
pub open spec fn flag_ids() -> Seq<u32> {
    seq![GP_ID_COUNT, (GP_ID_COUNT + 1) as u32, (GP_ID_COUNT + 2) as u32, (GP_ID_COUNT + 3) as u32]
}

/// The identifiers of the four flags.
pub fn flag_id_list() -> (r: Vec<u32>)
    ensures
        r@ == flag_ids(),
{
    let r = vec![GP_ID_COUNT, GP_ID_COUNT + 1, GP_ID_COUNT + 2, GP_ID_COUNT + 3];
    proof {
        assert(r@ =~= flag_ids());
    }
    r
}

/// The registers that carry a routine's arguments: X0..X7 and the stack pointer.
pub open spec fn default_param_registers() -> Seq<Register> {
    seq![
        Register::X0,
        Register::X1,
        Register::X2,
        Register::X3,
        Register::X4,
        Register::X5,
        Register::X6,
        Register::X7,
        Register::SP,
    ]
}

/// The registers that carry a system call's number (X8) and arguments (X0..X5).
pub open spec fn svc_param_registers() -> Seq<Register> {
    seq![
        Register::X8,
        Register::X0,
        Register::X1,
        Register::X2,
        Register::X3,
        Register::X4,
        Register::X5,
    ]
}

/// The registers that carry a system call's results.
pub open spec fn svc_return_registers() -> Seq<Register> {
    seq![Register::X0, Register::X1]
}

/// The registers that carry a routine's arguments.
pub fn default_param_register_list() -> (r: Vec<Register>)
    ensures
        r@ == default_param_registers(),
{
    let r = vec![
        Register::X0,
        Register::X1,
        Register::X2,
        Register::X3,
        Register::X4,
        Register::X5,
        Register::X6,
        Register::X7,
        Register::SP,
    ];
    proof {
        assert(r@ =~= default_param_registers());
    }
    r
}

/// The registers that carry a system call's number and arguments.
pub fn svc_param_register_list() -> (r: Vec<Register>)
    ensures
        r@ == svc_param_registers(),
{
    let r = vec![
        Register::X8,
        Register::X0,
        Register::X1,
        Register::X2,
        Register::X3,
        Register::X4,
        Register::X5,
    ];
    proof {
        assert(r@ =~= svc_param_registers());
    }
    r
}

/// The registers that carry a system call's results.
pub fn svc_return_register_list() -> (r: Vec<Register>)
    ensures
        r@ == svc_return_registers(),
{
    let r = vec![Register::X0, Register::X1];
    proof {
        assert(r@ =~= svc_return_registers());
    }
    r
}

/// Distinct registers have distinct identifiers, and no register shares its identifier
/// with a flag.
pub proof fn lemma_register_ids_distinct(a: Register, b: Register, flag: Flag)
    ensures
        a != b ==> register_id(a) != register_id(b),
        register_id(a) != GP_ID_COUNT + flag_index(flag),
{
}

} // verus!
