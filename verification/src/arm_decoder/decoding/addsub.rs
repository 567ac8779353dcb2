use vstd::prelude::*;
use vstd::arithmetic::power2::lemma2_to64;
use crate::arm_decoder::instructions::{
    AddSubtractOp, AddSubtractRightOperand, Instruction, add_subtract_op_from,
};
use crate::arm_decoder::structures::{
    Extension, InstructionBytes, Shift, SizeVariant, SliceSize, bit, reg, shift_from,
    slice_size_from, variant_of,
};
use crate::arm_decoder::utilities::{equal_masked, field};

verus! {

/// Add/subtract (immediate): `sf op S 100010 sh imm12 Rn Rd`.
pub open spec fn is_immediate(v: u32) -> bool {
    (v & 0b0001_1111_1000_0000_0000_0000_0000_0000) == 0b0001_0001_0000_0000_0000_0000_0000_0000
}

/// Add/subtract (shifted register): `sf op S 01011 shift 0 Rm imm6 Rn Rd`.
pub open spec fn is_shifted_register(v: u32) -> bool {
    (v & 0b0001_1111_0010_0000_0000_0000_0000_0000) == 0b0000_1011_0000_0000_0000_0000_0000_0000
}

/// Add/subtract (extended register): `sf op S 01011 00 1 Rm option imm3 Rn Rd`.
pub open spec fn is_extended_register(v: u32) -> bool {
    (v & 0b0001_1111_0010_0000_0000_0000_0000_0000) == 0b0000_1011_0010_0000_0000_0000_0000_0000
}

/// The words on which this decoder is defined: the shifted register form needs a
/// shift amount that fits the operand width and a shift other than a rotation, and
/// the extended register form a left shift of at most four.
pub open spec fn decodable(v: u32) -> bool {
    if is_immediate(v) {
        true
    } else if is_shifted_register(v) {
        &&& !(variant_of(v) == SizeVariant::Reg32 && field(v, 10, 6) > 31)
        &&& field(v, 22, 2) != 3
    } else if is_extended_register(v) {
        field(v, 10, 3) <= 4
    } else {
        true
    }
}

/// The add or subtract instruction encoded by `v`, if it is one.
pub open spec fn spec_decode(v: u32) -> Option<Instruction> {
    if is_immediate(v) {
        Some(
            Instruction::AddSubtract {
                destination: reg(v, 0, true),
                op: add_subtract_op_from(bit(v, 30)),
                operand1: reg(v, 0, true),
                operand2: AddSubtractRightOperand::Immediate(
                    (field(v, 10, 12) * (if bit(v, 22) {
                        4096nat
                    } else {
                        1nat
                    })) as u64,
                ),
                set_flags: bit(v, 29),
                variant: variant_of(v),
            },
        )
    } else if is_shifted_register(v) {
        Some(
            Instruction::AddSubtract {
                destination: reg(v, 0, false),
                op: add_subtract_op_from(bit(v, 30)),
                operand1: reg(v, 5, false),
                operand2: AddSubtractRightOperand::ShiftedRegister {
                    register: reg(v, 16, false),
                    shift_amount: field(v, 10, 6) as u64,
                    shift_type: shift_from(field(v, 22, 2) as u32),
                },
                set_flags: bit(v, 29),
                variant: variant_of(v),
            },
        )
    } else if is_extended_register(v) {
        Some(
            Instruction::AddSubtract {
                destination: reg(v, 0, true),
                op: add_subtract_op_from(bit(v, 30)),
                operand1: reg(v, 5, true),
                operand2: AddSubtractRightOperand::ExtendedRegister {
                    extension: Extension {
                        size: slice_size_from(field(v, 13, 2) as u32),
                        signed: bit(v, 15),
                    },
                    left_shift_amount: field(v, 10, 3) as u64,
                    register: reg(v, 16, true),
                },
                set_flags: bit(v, 29),
                variant: variant_of(v),
            },
        )
    } else {
        None
    }
}

proof fn lemma_shift_12(x: u64)
    by (bit_vector)
    requires
        x < 4096,
    ensures
        x << 12u64 == x * 4096,
        x << 0u64 == x,
{
}

/// Decodes the add and subtract instructions (immediate, shifted register and
/// extended register forms).
pub fn decode(bytes: InstructionBytes) -> (r: Option<Instruction>)
    requires
        decodable(bytes.0),
    ensures
        r == spec_decode(bytes.0),
{
    proof {
        lemma2_to64();
    }
    // Immediate
    if equal_masked(
        bytes.0,
        0b0001_1111_1000_0000_0000_0000_0000_0000,
        0b0001_0001_0000_0000_0000_0000_0000_0000,
    ) {
        let imm12 = bytes.immediate_unsigned(10, 12) as u64;
        let shift: u64 = if bytes.bool(22) { 12 } else { 0 };
        proof {
            lemma_shift_12(imm12);
        }
        return Some(
            Instruction::AddSubtract {
                destination: bytes.register(0, true),
                op: AddSubtractOp::from_bool(bytes.bool(30)),
                operand1: bytes.register(0, true),
                operand2: AddSubtractRightOperand::Immediate(imm12 << shift),
                set_flags: bytes.bool(29),
                variant: bytes.variant(),
            },
        );
    }
    // Shifted register

    if equal_masked(
        bytes.0,
        0b0001_1111_0010_0000_0000_0000_0000_0000,
        0b0000_1011_0000_0000_0000_0000_0000_0000,
    ) {
        let shift_amount = bytes.immediate_unsigned(10, 6) as u64;

        return Some(
            Instruction::AddSubtract {
                destination: bytes.register(0, false),
                op: AddSubtractOp::from_bool(bytes.bool(30)),
                operand1: bytes.register(5, false),
                operand2: AddSubtractRightOperand::ShiftedRegister {
                    register: bytes.register(16, false),
                    shift_amount,
                    shift_type: Shift::decode(bytes.immediate_unsigned(22, 2), false),
                },
                set_flags: bytes.bool(29),
                variant: bytes.variant(),
            },
        );
    }
    // Extended register

    if equal_masked(
        bytes.0,
        0b0001_1111_0010_0000_0000_0000_0000_0000,
        0b0000_1011_0010_0000_0000_0000_0000_0000,
    ) {
        let left_shift_amount = bytes.immediate_unsigned(10, 3) as u64;
        let option = bytes.immediate_unsigned(13, 2);

        return Some(
            Instruction::AddSubtract {
                destination: bytes.register(0, true),
                op: AddSubtractOp::from_bool(bytes.bool(30)),
                operand1: bytes.register(5, true),
                operand2: AddSubtractRightOperand::ExtendedRegister {
                    extension: Extension {
                        size: if option == 0b00 {
                            SliceSize::Byte
                        } else if option == 0b01 {
                            SliceSize::Halfword
                        } else if option == 0b10 {
                            SliceSize::Word
                        } else {
                            SliceSize::Doubleword
                        },
                        signed: bytes.bool(15),
                    },
                    left_shift_amount,
                    register: bytes.register(16, true),
                },
                set_flags: bytes.bool(29),
                variant: bytes.variant(),
            },
        );
    }
    None
}

/// Whether this decoder is defined on `bytes`.
pub fn is_decodable(bytes: InstructionBytes) -> (r: bool)
    ensures
        r == decodable(bytes.0),
{
    proof {
        lemma2_to64();
    }
    if equal_masked(
        bytes.0,
        0b0001_1111_1000_0000_0000_0000_0000_0000,
        0b0001_0001_0000_0000_0000_0000_0000_0000,
    ) {
        true
    } else if equal_masked(
        bytes.0,
        0b0001_1111_0010_0000_0000_0000_0000_0000,
        0b0000_1011_0000_0000_0000_0000_0000_0000,
    ) {
        let narrow = match bytes.variant() {
            SizeVariant::Reg32 => true,
            SizeVariant::Reg64 => false,
        };
        !(narrow && bytes.immediate_unsigned(10, 6) > 31) && bytes.immediate_unsigned(22, 2) != 3
    } else if equal_masked(
        bytes.0,
        0b0001_1111_0010_0000_0000_0000_0000_0000,
        0b0000_1011_0010_0000_0000_0000_0000_0000,
    ) {
        bytes.immediate_unsigned(10, 3) <= 4
    } else {
        true
    }
}


/// The Arm encoding of additions and subtractions: bit 30 chooses subtraction, bit 29
/// setting the flags, and bit 31 the 64-bit form, in each of the immediate, shifted
/// register and extended register forms.
pub proof fn lemma_add_sub_encoding(v: u32)
    requires
        is_immediate(v) || is_shifted_register(v) || is_extended_register(v),
    ensures
        spec_decode(v) matches Some(Instruction::AddSubtract { op, set_flags, variant, .. }) && {
            &&& (op == AddSubtractOp::Subtract) == (v & 0x4000_0000 != 0)
            &&& (op == AddSubtractOp::Add) == (v & 0x4000_0000 == 0)
            &&& set_flags == (v & 0x2000_0000 != 0)
            &&& (variant == crate::arm_decoder::structures::SizeVariant::Reg64) == (v & 0x8000_0000 != 0)
        },
{
    crate::arm_decoder::structures::lemma_bit_is_mask(v, 29);
    crate::arm_decoder::structures::lemma_bit_is_mask(v, 30);
    crate::arm_decoder::structures::lemma_bit_is_mask(v, 31);
    assert((1u32 << 29u32) == 0x2000_0000u32 && (1u32 << 30u32) == 0x4000_0000u32 && (1u32 << 31u32)
        == 0x8000_0000u32) by (bit_vector);
}

} // verus!
