use vstd::prelude::*;
use vstd::arithmetic::power2::{pow2, lemma2_to64};
use vstd::bits::lemma_u64_shl_is_mul;
use crate::arm_decoder::instructions::Instruction;
use crate::arm_decoder::structures::{InstructionBytes, SizeVariant, reg, variant_of};
use crate::arm_decoder::utilities::{equal_masked, field};

verus! {

/// Move wide (immediate): `sf opc 100101 hw imm16 Rd`.
pub open spec fn is_move_wide(v: u32) -> bool {
    (v & 0b0001_1111_1000_0000_0000_0000_0000_0000) == 0b0001_0010_1000_0000_0000_0000_0000_0000
}

/// The position of the 16-bit immediate: `hw * 16`.
pub open spec fn move_shift(v: u32) -> nat {
    field(v, 21, 2) * 16
}

/// The words on which this decoder is defined: `opc` must not be `01`, and a 32-bit
/// form may only place the immediate at bit 0 or 16.
pub open spec fn decodable(v: u32) -> bool {
    is_move_wide(v) ==> field(v, 29, 2) != 1 && !(variant_of(v) == SizeVariant::Reg32
        && move_shift(v) > 16)
}

/// The value written by MOVN or MOVZ, and the immediate inserted by MOVK.
pub open spec fn move_value(v: u32) -> u64 {
    let raw = (field(v, 5, 16) * pow2(move_shift(v))) as u64;
    if field(v, 29, 2) == 0 {
        if variant_of(v) == SizeVariant::Reg32 {
            !raw & 0xffff_ffffu64
        } else {
            !raw
        }
    } else {
        raw
    }
}

/// The move wide instruction (MOVN, MOVZ, MOVK) encoded by `v`, if it is one.
pub open spec fn spec_decode(v: u32) -> Option<Instruction> {
    if is_move_wide(v) {
        Some(
            Instruction::MoveWide {
                destination: reg(v, 0, false),
                keep_shift: if field(v, 29, 2) == 3 {
                    Some(move_shift(v) as u32)
                } else {
                    None
                },
                source: reg(v, 5, false),
                value: move_value(v),
                variant: variant_of(v),
            },
        )
    } else {
        None
    }
}

proof fn lemma_pow2_move_shift(shift: u32)
    requires
        shift == 0 || shift == 16 || shift == 32 || shift == 48,
    ensures
        pow2(shift as nat) <= 0x1_0000_0000_0000,
{
    lemma2_to64();
    vstd::arithmetic::power2::lemma2_to64_rest();
    if shift == 0 {
    } else if shift == 16 {
    } else if shift == 32 {
    } else {
        assert(pow2(48) == 0x1_0000_0000_0000);
    }
}

/// Decodes MOVN, MOVZ and MOVK.
pub fn decode(bytes: InstructionBytes) -> (r: Option<Instruction>)
    requires
        decodable(bytes.0),
    ensures
        r == spec_decode(bytes.0),
{
    proof {
        lemma2_to64();
    }
    if equal_masked(
        bytes.0,
        0b0001_1111_1000_0000_0000_0000_0000_0000,
        0b0001_0010_1000_0000_0000_0000_0000_0000,
    ) {
        let op = bytes.immediate_unsigned(29, 2);

        let variant = bytes.variant();

        let hw = bytes.immediate_unsigned(21, 2);
        proof {
            vstd::bits::lemma_u32_shl_is_mul(hw, 4);
        }
        let shift = hw << 4;
        let imm16 = bytes.immediate_unsigned(5, 16) as u64;
        proof {
            assert(shift == 0 || shift == 16 || shift == 32 || shift == 48);
            lemma_pow2_move_shift(shift);
            assert(imm16 * pow2(shift as nat) <= u64::MAX) by (nonlinear_arith)
                requires
                    imm16 < 65536,
                    pow2(shift as nat) <= 0x1_0000_0000_0000,
            ;
            lemma_u64_shl_is_mul(imm16, shift as u64);
        }
        let mut value = imm16 << (shift as u64);

        if op == 0b00 {
            value = !value;

            if matches!(variant, SizeVariant::Reg32) {
                value = value & 0xffff_ffff;
            }
        }
        return Some(
            Instruction::MoveWide {
                destination: bytes.register(0, false),
                keep_shift: if op == 0b11 {
                    Some(shift)
                } else {
                    None
                },
                source: bytes.register(5, false),
                value,
                variant,
            },
        );
    }
    None
}

} // verus!
