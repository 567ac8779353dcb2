use vstd::prelude::*;
use vstd::arithmetic::power2::lemma2_to64;
use crate::arm_decoder::instructions::Instruction;
use crate::arm_decoder::structures::{InstructionBytes, bit, reg};
use crate::arm_decoder::utilities::{equal_masked, field, sign_extend, sign_extended};

verus! {

/// BRK: `11010100 001 imm16 000 00`.
pub open spec fn is_breakpoint(v: u32) -> bool {
    (v & 0b1111_1111_1110_0000_0000_0000_0001_1111) == 0b1101_0100_0010_0000_0000_0000_0000_0000
}

/// NOP.
pub open spec fn is_nop(v: u32) -> bool {
    v == 0b1101_0101_0000_0011_0010_0000_0001_1111
}

/// SVC: `11010100 000 imm16 000 01`.
pub open spec fn is_supervisor_call(v: u32) -> bool {
    (v & 0b1111_1111_1110_0000_0000_0000_0001_1111) == 0b1101_0100_0000_0000_0000_0000_0000_0001
}

/// RET: `1101011 0 0 10 11111 0000 0 0 Rn 00000`.
pub open spec fn is_return(v: u32) -> bool {
    (v & 0b1111_1111_1111_1111_1111_1100_0001_1111) == 0b1101_0110_0101_1111_0000_0000_0000_0000
}

/// ADR, ADRP: `op immlo 10000 immhi Rd`.
pub open spec fn is_pc_relative(v: u32) -> bool {
    (v & 0b1001_1111_0000_0000_0000_0000_0000_0000) == 0b0001_0000_0000_0000_0000_0000_0000_0000
}

/// The 21-bit offset `immhi:immlo` of ADR and ADRP, sign extended.
pub open spec fn pc_relative_value(v: u32) -> int {
    sign_extended((field(v, 5, 19) * 4 + field(v, 29, 2)) as u32, 21)
}

/// The system, exception and PC-relative instruction encoded by `v`, if it is one.
pub open spec fn spec_decode(v: u32) -> Option<Instruction> {
    if is_breakpoint(v) {
        Some(Instruction::Breakpoint { immediate: field(v, 5, 16) as u16 })
    } else if is_nop(v) {
        Some(Instruction::Nop)
    } else if is_supervisor_call(v) {
        Some(Instruction::SupervisorCall { argument: field(v, 5, 16) as u16 })
    } else if is_return(v) {
        Some(Instruction::Return { target: reg(v, 5, false) })
    } else if is_pc_relative(v) {
        Some(
            Instruction::FormPCRelativeAddress {
                aligned_to_page: bit(v, 31),
                destination: reg(v, 0, false),
                value: pc_relative_value(v) as i64,
            },
        )
    } else {
        None
    }
}

proof fn lemma_concat_immediate(hi: u32, lo: u32)
    by (bit_vector)
    requires
        hi < 0x80000,
        lo < 4,
    ensures
        (hi << 2u32) | lo == hi * 4 + lo,
{
}

proof fn lemma_full_mask(v: u32)
    by (bit_vector)
    ensures
        v & 0b1111_1111_1111_1111_1111_1111_1111_1111 == v,
{
}

/// Decodes BRK, NOP, SVC, RET, ADR and ADRP.
pub fn decode(bytes: InstructionBytes) -> (r: Option<Instruction>)
    ensures
        r == spec_decode(bytes.0),
{
    proof {
        lemma2_to64();
        lemma_full_mask(bytes.0);
    }
    // BRK
    if equal_masked(
        bytes.0,
        0b1111_1111_1110_0000_0000_0000_0001_1111,
        0b1101_0100_0010_0000_0000_0000_0000_0000,
    ) {
        return Some(Instruction::Breakpoint { immediate: bytes.immediate_unsigned(5, 16) as u16 });
    }
    // NOP

    if equal_masked(
        bytes.0,
        0b1111_1111_1111_1111_1111_1111_1111_1111,
        0b1101_0101_0000_0011_0010_0000_0001_1111,
    ) {
        return Some(Instruction::Nop);
    }
    // SVC

    if equal_masked(
        bytes.0,
        0b1111_1111_1110_0000_0000_0000_0001_1111,
        0b1101_0100_0000_0000_0000_0000_0000_0001,
    ) {
        return Some(
            Instruction::SupervisorCall { argument: bytes.immediate_unsigned(5, 16) as u16 },
        );
    }
    // RET

    if equal_masked(
        bytes.0,
        0b1111_1111_1111_1111_1111_1100_0001_1111,
        0b1101_0110_0101_1111_0000_0000_0000_0000,
    ) {
        return Some(Instruction::Return { target: bytes.register(5, false) });
    }
    // ADR, ADRP

    if equal_masked(
        bytes.0,
        0b1001_1111_0000_0000_0000_0000_0000_0000,
        0b0001_0000_0000_0000_0000_0000_0000_0000,
    ) {
        let hi = bytes.immediate_unsigned(5, 19);
        let lo = bytes.immediate_unsigned(29, 2);
        proof {
            lemma_concat_immediate(hi, lo);
        }
        return Some(
            Instruction::FormPCRelativeAddress {
                aligned_to_page: bytes.bool(31),
                destination: bytes.register(0, false),
                value: sign_extend((hi << 2) | lo, 21) as i64,
            },
        );
    }
    None
}

} // verus!
