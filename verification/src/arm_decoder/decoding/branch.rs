use vstd::prelude::*;
use vstd::arithmetic::power2::lemma2_to64;
use crate::arm_decoder::instructions::{BranchTarget, Instruction};
use crate::arm_decoder::structures::{
    Condition, InstructionBytes, bit, condition_from, reg, simm, variant_of,
};
use crate::arm_decoder::utilities::{equal_masked, field};

verus! {

/// B, BL: `op 00101 imm26`.
pub open spec fn is_branch_immediate(v: u32) -> bool {
    (v & 0b0111_1100_0000_0000_0000_0000_0000_0000) == 0b0001_0100_0000_0000_0000_0000_0000_0000
}

/// BR, BLR: `1101011 0 0 0 op 11111 0000 0 0 Rn 00000`.
pub open spec fn is_branch_register(v: u32) -> bool {
    (v & 0b1111_1111_1101_1111_1111_1100_0001_1111) == 0b1101_0110_0001_1111_0000_0000_0000_0000
}

/// B.cond: `0101010 0 imm19 0 cond`.
pub open spec fn is_branch_conditional(v: u32) -> bool {
    (v & 0b1111_1111_0000_0000_0000_0000_0001_0000) == 0b0101_0100_0000_0000_0000_0000_0000_0000
}

/// TBZ, TBNZ: `b5 011011 op b40 imm14 Rt`.
pub open spec fn is_test_bit_branch(v: u32) -> bool {
    (v & 0b0111_1110_0000_0000_0000_0000_0001_0000) == 0b0011_0110_0000_0000_0000_0000_0000_0000
}

/// The branch encoded by `v`, if it is one.
pub open spec fn spec_decode(v: u32) -> Option<Instruction> {
    if is_branch_immediate(v) {
        Some(
            Instruction::UnconditionalBranch {
                link: bit(v, 31),
                target: BranchTarget::RelativeInstructionOffset(simm(v, 0, 26) as i64),
            },
        )
    } else if is_branch_register(v) {
        Some(
            Instruction::UnconditionalBranch {
                link: bit(v, 21),
                target: BranchTarget::Register(reg(v, 5, false)),
            },
        )
    } else if is_branch_conditional(v) {
        Some(
            Instruction::BranchConditionally {
                condition: condition_from(field(v, 0, 4) as u32),
                target: simm(v, 5, 19) as i64,
            },
        )
    } else if is_test_bit_branch(v) {
        Some(
            Instruction::TestBitAndBranch {
                branch_if_zero: !bit(v, 24),
                register: reg(v, 0, false),
                target: simm(v, 5, 14) as i64,
                test_bit: field(v, 19, 5) as u32,
                variant: variant_of(v),
            },
        )
    } else {
        None
    }
}

/// Decodes B, BL, BR, BLR, B.cond, TBZ and TBNZ.
pub fn decode(bytes: InstructionBytes) -> (r: Option<Instruction>)
    ensures
        r == spec_decode(bytes.0),
{
    proof {
        lemma2_to64();
    }
    // B, BL
    if equal_masked(
        bytes.0,
        0b0111_1100_0000_0000_0000_0000_0000_0000,
        0b0001_0100_0000_0000_0000_0000_0000_0000,
    ) {
        return Some(
            Instruction::UnconditionalBranch {
                link: bytes.bool(31),
                target: BranchTarget::RelativeInstructionOffset(
                    bytes.immediate(0, 26, true) as i64,
                ),
            },
        );
    }
    // BR, BLR

    if equal_masked(
        bytes.0,
        0b1111_1111_1101_1111_1111_1100_0001_1111,
        0b1101_0110_0001_1111_0000_0000_0000_0000,
    ) {
        return Some(
            Instruction::UnconditionalBranch {
                link: bytes.bool(21),
                target: BranchTarget::Register(bytes.register(5, false)),
            },
        );
    }
    // B.cond

    if equal_masked(
        bytes.0,
        0b1111_1111_0000_0000_0000_0000_0001_0000,
        0b0101_0100_0000_0000_0000_0000_0000_0000,
    ) {
        return Some(
            Instruction::BranchConditionally {
                condition: Condition::decode(bytes.immediate_unsigned(0, 4), true),
                target: bytes.immediate(5, 19, true) as i64,
            },
        );
    }
    // TBZ, TBNZ

    if equal_masked(
        bytes.0,
        0b0111_1110_0000_0000_0000_0000_0001_0000,
        0b0011_0110_0000_0000_0000_0000_0000_0000,
    ) {
        let variant = bytes.variant();
        let test_bit = bytes.immediate_unsigned(19, 5);

        return Some(
            Instruction::TestBitAndBranch {
                branch_if_zero: !bytes.bool(24),
                register: bytes.register(0, false),
                target: bytes.immediate(5, 14, true) as i64,
                test_bit,
                variant,
            },
        );
    }
    None
}

} // verus!
