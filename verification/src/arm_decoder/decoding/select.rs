use vstd::prelude::*;
use vstd::arithmetic::power2::lemma2_to64;
use crate::arm_decoder::instructions::{ConditionalSelectMode, Instruction};
use crate::arm_decoder::structures::{
    Condition, InstructionBytes, bit, condition_from, reg, variant_of,
};
use crate::arm_decoder::utilities::{equal_masked, field};

verus! {

/// Conditional select with `S = 0` and `op2 = 0x`.
pub open spec fn is_conditional_select(v: u32) -> bool {
    (v & 0b0011_1111_1110_0000_0000_1000_0000_0000) == 0b0001_1010_1000_0000_0000_0000_0000_0000
}

/// The words on which this decoder is defined: the condition field, with its low bit
/// flipped, must not name `AL` or `NV`.
pub open spec fn decodable(v: u32) -> bool {
    is_conditional_select(v) ==> field(v, 12, 4) < 14
}

/// The select mode from the `op` bit (30) and the `o2` bit (10).
pub open spec fn select_mode_from(op: bool, o2: bool) -> ConditionalSelectMode {
    if !op && !o2 {
        ConditionalSelectMode::Identity
    } else if !op && o2 {
        ConditionalSelectMode::Increment
    } else if op && !o2 {
        ConditionalSelectMode::Invert
    } else {
        ConditionalSelectMode::Negate
    }
}

/// The conditional select (CSEL, CSINC, CSINV, CSNEG) encoded by `v`, if it is one;
/// its condition is the encoded one with the low bit flipped.
pub open spec fn spec_decode(v: u32) -> Option<Instruction> {
    if is_conditional_select(v) {
        Some(
            Instruction::ConditionalSelect {
                condition: condition_from((field(v, 12, 4) as u32) ^ 1u32),
                destination: reg(v, 0, false),
                op: select_mode_from(bit(v, 30), bit(v, 10)),
                operand1: reg(v, 5, false),
                operand2: reg(v, 16, false),
                variant: variant_of(v),
            },
        )
    } else {
        None
    }
}

proof fn lemma_flip_low_bit(c: u32)
    by (bit_vector)
    requires
        c < 14,
    ensures
        c ^ 1u32 < 14,
{
}

/// Decodes CSEL, CSINC, CSINV and CSNEG.
pub fn decode(bytes: InstructionBytes) -> (r: Option<Instruction>)
    requires
        decodable(bytes.0),
    ensures
        r == spec_decode(bytes.0),
{
    proof {
        lemma2_to64();
    }
    // Enforcing S = 0 and op2 = 0x
    if equal_masked(
        bytes.0,
        0b0011_1111_1110_0000_0000_1000_0000_0000,
        0b0001_1010_1000_0000_0000_0000_0000_0000,
    ) {
        let cond = bytes.immediate_unsigned(12, 4);
        proof {
            lemma_flip_low_bit(cond);
        }
        let op = bytes.bool(30);
        let o2 = bytes.bool(10);
        return Some(
            Instruction::ConditionalSelect {
                condition: Condition::decode(cond ^ 0b0001, false),
                destination: bytes.register(0, false),
                op: if !op && !o2 {
                    ConditionalSelectMode::Identity
                } else if !op && o2 {
                    ConditionalSelectMode::Increment
                } else if op && !o2 {
                    ConditionalSelectMode::Invert
                } else {
                    ConditionalSelectMode::Negate
                },
                operand1: bytes.register(5, false),
                operand2: bytes.register(16, false),
                variant: bytes.variant(),
            },
        );
    }
    None
}


/// Bit 30 and bit 10 of a word, read through the field decoder, are its bits.
proof fn lemma_select_bits(v: u32)
    ensures
        bit(v, 30) == (v & 0x4000_0000 != 0),
        bit(v, 10) == (v & 0x400 != 0),
{
    vstd::bits::lemma_u32_shr_is_div(v, 30);
    vstd::bits::lemma_u32_shr_is_div(v, 10);
    lemma2_to64();
    assert(field(v, 30, 1) == (v >> 30u32) as nat % 2);
    assert(field(v, 10, 1) == (v >> 10u32) as nat % 2);
    assert(((v >> 30u32) % 2 == 1) == (v & 0x4000_0000 != 0)) by (bit_vector);
    assert(((v >> 10u32) % 2 == 1) == (v & 0x400 != 0)) by (bit_vector);
}

/// The Arm encoding of conditional selects: with `op` (bit 30) and `o2` (bit 10) both
/// clear the word is CSEL, with `o2` set alone CSINC, with `op` set alone CSINV, and with
/// both set CSNEG.
pub proof fn lemma_select_modes(v: u32)
    requires
        is_conditional_select(v),
    ensures
        spec_decode(v) matches Some(Instruction::ConditionalSelect { op, .. }) && op == (if v & 0x4000_0000
            == 0 {
            if v & 0x400 == 0 {
                ConditionalSelectMode::Identity
            } else {
                ConditionalSelectMode::Increment
            }
        } else {
            if v & 0x400 == 0 {
                ConditionalSelectMode::Invert
            } else {
                ConditionalSelectMode::Negate
            }
        }),
{
    lemma_select_bits(v);
}

} // verus!
