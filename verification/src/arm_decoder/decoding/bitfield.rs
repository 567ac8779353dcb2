use vstd::prelude::*;
use vstd::arithmetic::power2::lemma2_to64;
use crate::arm_decoder::instructions::{BitfieldMoveMode, Instruction};
use crate::arm_decoder::structures::{InstructionBytes, bit, reg, variant_of};
use crate::arm_decoder::utilities::{equal_masked, field};

verus! {

/// Bitfield: `sf opc 100110 N immr imms Rn Rd`.
pub open spec fn is_bitfield(v: u32) -> bool {
    (v & 0b0001_1111_1000_0000_0000_0000_0000_0000) == 0b0001_0011_0000_0000_0000_0000_0000_0000
}

/// The words on which this decoder is defined: `N` must equal `sf`, and `opc` must
/// not be `11`.
pub open spec fn decodable(v: u32) -> bool {
    is_bitfield(v) ==> bit(v, 31) == bit(v, 22) && field(v, 29, 2) != 3
}

/// The mode with two-bit `opc` encoding `n`.
pub open spec fn bitfield_mode_from(n: nat) -> BitfieldMoveMode {
    if n == 0 {
        BitfieldMoveMode::Signed
    } else if n == 1 {
        BitfieldMoveMode::Default
    } else {
        BitfieldMoveMode::Unsigned
    }
}

/// The bitfield move (SBFM, BFM, UBFM) encoded by `v`, if it is one.
pub open spec fn spec_decode(v: u32) -> Option<Instruction> {
    if is_bitfield(v) {
        Some(
            Instruction::BitfieldMove {
                destination: reg(v, 0, true),
                leftmost_bit_number: field(v, 16, 6) as u32,
                mode: bitfield_mode_from(field(v, 29, 2)),
                right_rotate_amount: field(v, 10, 6) as u32,
                source: reg(v, 5, false),
                variant: variant_of(v),
            },
        )
    } else {
        None
    }
}

/// Decodes SBFM, BFM and UBFM.
pub fn decode(bytes: InstructionBytes) -> (r: Option<Instruction>)
    requires
        decodable(bytes.0),
    ensures
        r == spec_decode(bytes.0),
{
    proof {
        lemma2_to64();
    }
    if equal_masked(
        bytes.0,
        0b0001_1111_1000_0000_0000_0000_0000_0000,
        0b0001_0011_0000_0000_0000_0000_0000_0000,
    ) {
        let opc = bytes.immediate_unsigned(29, 2);
        return Some(
            Instruction::BitfieldMove {
                destination: bytes.register(0, true),
                source: bytes.register(5, false),
                leftmost_bit_number: bytes.immediate_unsigned(16, 6),
                right_rotate_amount: bytes.immediate_unsigned(10, 6),
                variant: bytes.variant(),
                mode: if opc == 0b00 {
                    BitfieldMoveMode::Signed
                } else if opc == 0b01 {
                    BitfieldMoveMode::Default
                } else {
                    BitfieldMoveMode::Unsigned
                },
            },
        );
    }
    None
}

} // verus!
