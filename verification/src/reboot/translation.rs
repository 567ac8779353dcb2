use vstd::prelude::*;
use crate::reboot::instructions::Register;

verus! {

/// The number of general purpose registers that get a local (X0..X30).
pub const GENERAL_PURPOSE_REGISTER_COUNT: u32 = 31;

/// The number of registers that pass arguments (X0..X7).
pub const PARAMETER_REGISTER_COUNT: u32 = 8;

/// The local of the stack pointer.
pub const SP_LOCAL_INDEX: u32 = 0;

/// The local of the carry flag.
pub const CARRY_FLAG_LOCAL_INDEX: u32 = 1;

/// The local of the negative flag.
pub const NEGATIVE_FLAG_LOCAL_INDEX: u32 = 2;

/// The local of the zero flag.
pub const ZERO_FLAG_LOCAL_INDEX: u32 = 3;

/// The local of the overflow flag.
pub const OVERFLOW_FLAG_LOCAL_INDEX: u32 = 4;

/// The local of X0; X1..X30 follow it.
pub const FIRST_GP_REGISTER_LOCAL_INDEX: u32 = 5;

/// The local that holds `register` (the zero register has none): the stack pointer's
/// comes first, after it the flags', then X0..X30 in order.
pub open spec fn register_local_index(register: Register) -> u32 {
    match register {
        Register::SP => SP_LOCAL_INDEX,
        Register::X0 => (FIRST_GP_REGISTER_LOCAL_INDEX + 0) as u32,
        Register::X1 => (FIRST_GP_REGISTER_LOCAL_INDEX + 1) as u32,
        Register::X2 => (FIRST_GP_REGISTER_LOCAL_INDEX + 2) as u32,
        Register::X3 => (FIRST_GP_REGISTER_LOCAL_INDEX + 3) as u32,
        Register::X4 => (FIRST_GP_REGISTER_LOCAL_INDEX + 4) as u32,
        Register::X5 => (FIRST_GP_REGISTER_LOCAL_INDEX + 5) as u32,
        Register::X6 => (FIRST_GP_REGISTER_LOCAL_INDEX + 6) as u32,
        Register::X7 => (FIRST_GP_REGISTER_LOCAL_INDEX + 7) as u32,
        Register::X8 => (FIRST_GP_REGISTER_LOCAL_INDEX + 8) as u32,
        Register::X9 => (FIRST_GP_REGISTER_LOCAL_INDEX + 9) as u32,
        Register::X10 => (FIRST_GP_REGISTER_LOCAL_INDEX + 10) as u32,
        Register::X11 => (FIRST_GP_REGISTER_LOCAL_INDEX + 11) as u32,
        Register::X12 => (FIRST_GP_REGISTER_LOCAL_INDEX + 12) as u32,
        Register::X13 => (FIRST_GP_REGISTER_LOCAL_INDEX + 13) as u32,
        Register::X14 => (FIRST_GP_REGISTER_LOCAL_INDEX + 14) as u32,
        Register::X15 => (FIRST_GP_REGISTER_LOCAL_INDEX + 15) as u32,
        Register::X16 => (FIRST_GP_REGISTER_LOCAL_INDEX + 16) as u32,
        Register::X17 => (FIRST_GP_REGISTER_LOCAL_INDEX + 17) as u32,
        Register::X18 => (FIRST_GP_REGISTER_LOCAL_INDEX + 18) as u32,
        Register::X19 => (FIRST_GP_REGISTER_LOCAL_INDEX + 19) as u32,
        Register::X20 => (FIRST_GP_REGISTER_LOCAL_INDEX + 20) as u32,
        Register::X21 => (FIRST_GP_REGISTER_LOCAL_INDEX + 21) as u32,
        Register::X22 => (FIRST_GP_REGISTER_LOCAL_INDEX + 22) as u32,
        Register::X23 => (FIRST_GP_REGISTER_LOCAL_INDEX + 23) as u32,
        Register::X24 => (FIRST_GP_REGISTER_LOCAL_INDEX + 24) as u32,
        Register::X25 => (FIRST_GP_REGISTER_LOCAL_INDEX + 25) as u32,
        Register::X26 => (FIRST_GP_REGISTER_LOCAL_INDEX + 26) as u32,
        Register::X27 => (FIRST_GP_REGISTER_LOCAL_INDEX + 27) as u32,
        Register::X28 => (FIRST_GP_REGISTER_LOCAL_INDEX + 28) as u32,
        Register::X29 => (FIRST_GP_REGISTER_LOCAL_INDEX + 29) as u32,
        Register::X30 => (FIRST_GP_REGISTER_LOCAL_INDEX + 30) as u32,
        Register::XZR => 0,
    }
}

/// The local that holds `register`.
pub fn get_reg_local_index(register: Register) -> (r: u32)
    requires
        register != Register::XZR,
    ensures
        r == register_local_index(register),
{
    match register {
        Register::SP => SP_LOCAL_INDEX,
        Register::X0 => FIRST_GP_REGISTER_LOCAL_INDEX + 0,
        Register::X1 => FIRST_GP_REGISTER_LOCAL_INDEX + 1,
        Register::X2 => FIRST_GP_REGISTER_LOCAL_INDEX + 2,
        Register::X3 => FIRST_GP_REGISTER_LOCAL_INDEX + 3,
        Register::X4 => FIRST_GP_REGISTER_LOCAL_INDEX + 4,
        Register::X5 => FIRST_GP_REGISTER_LOCAL_INDEX + 5,
        Register::X6 => FIRST_GP_REGISTER_LOCAL_INDEX + 6,
        Register::X7 => FIRST_GP_REGISTER_LOCAL_INDEX + 7,
        Register::X8 => FIRST_GP_REGISTER_LOCAL_INDEX + 8,
        Register::X9 => FIRST_GP_REGISTER_LOCAL_INDEX + 9,
        Register::X10 => FIRST_GP_REGISTER_LOCAL_INDEX + 10,
        Register::X11 => FIRST_GP_REGISTER_LOCAL_INDEX + 11,
        Register::X12 => FIRST_GP_REGISTER_LOCAL_INDEX + 12,
        Register::X13 => FIRST_GP_REGISTER_LOCAL_INDEX + 13,
        Register::X14 => FIRST_GP_REGISTER_LOCAL_INDEX + 14,
        Register::X15 => FIRST_GP_REGISTER_LOCAL_INDEX + 15,
        Register::X16 => FIRST_GP_REGISTER_LOCAL_INDEX + 16,
        Register::X17 => FIRST_GP_REGISTER_LOCAL_INDEX + 17,
        Register::X18 => FIRST_GP_REGISTER_LOCAL_INDEX + 18,
        Register::X19 => FIRST_GP_REGISTER_LOCAL_INDEX + 19,
        Register::X20 => FIRST_GP_REGISTER_LOCAL_INDEX + 20,
        Register::X21 => FIRST_GP_REGISTER_LOCAL_INDEX + 21,
        Register::X22 => FIRST_GP_REGISTER_LOCAL_INDEX + 22,
        Register::X23 => FIRST_GP_REGISTER_LOCAL_INDEX + 23,
        Register::X24 => FIRST_GP_REGISTER_LOCAL_INDEX + 24,
        Register::X25 => FIRST_GP_REGISTER_LOCAL_INDEX + 25,
        Register::X26 => FIRST_GP_REGISTER_LOCAL_INDEX + 26,
        Register::X27 => FIRST_GP_REGISTER_LOCAL_INDEX + 27,
        Register::X28 => FIRST_GP_REGISTER_LOCAL_INDEX + 28,
        Register::X29 => FIRST_GP_REGISTER_LOCAL_INDEX + 29,
        Register::X30 => FIRST_GP_REGISTER_LOCAL_INDEX + 30,
        Register::XZR => 0,
    }
}

/// No two registers share a local, and none shares one with a flag.
pub proof fn lemma_register_locals_distinct(a: Register, b: Register)
    requires
        a != Register::XZR,
        b != Register::XZR,
    ensures
        a != b ==> register_local_index(a) != register_local_index(b),
        register_local_index(a) != CARRY_FLAG_LOCAL_INDEX,
        register_local_index(a) != NEGATIVE_FLAG_LOCAL_INDEX,
        register_local_index(a) != ZERO_FLAG_LOCAL_INDEX,
        register_local_index(a) != OVERFLOW_FLAG_LOCAL_INDEX,
        register_local_index(a) < FIRST_GP_REGISTER_LOCAL_INDEX + GENERAL_PURPOSE_REGISTER_COUNT,
{
}

} // verus!
