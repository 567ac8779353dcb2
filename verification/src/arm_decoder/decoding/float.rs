use vstd::prelude::*;
use vstd::arithmetic::power2::lemma2_to64;
use crate::arm_decoder::instructions::{
    ConvertFPIntegerOp, FPMoveDirection, FPMoveFPSize, FPProcessingOp, FPToIntegerRoundingMode,
    Instruction,
};
use crate::arm_decoder::structures::{FPSize, InstructionBytes, reg, simd_reg, variant_of};
use crate::arm_decoder::utilities::{equal_masked, field};

verus! {

/// Conversion between floating-point and integer.
pub open spec fn is_fp_integer_conversion(v: u32) -> bool {
    (v & 0b0101_1111_0010_0000_1111_1100_0000_0000) == 0b0001_1110_0010_0000_0000_0000_0000_0000
}

/// Floating-point data-processing (2 source).
pub open spec fn is_fp_two_source(v: u32) -> bool {
    (v & 0b1111_1111_0010_0000_0000_1100_0000_0000) == 0b0001_1110_0010_0000_0000_1000_0000_0000
}

/// Advanced SIMD three same.
pub open spec fn is_simd_three_same(v: u32) -> bool {
    (v & 0b1000_1111_0010_0000_0000_0100_0000_0000) == 0b0000_1110_0010_0000_0000_0100_0000_0000
}

/// The size of an FMOV between a general purpose and a floating-point register, from
/// `ftype` and `rmode`.
pub open spec fn fp_move_size(ftype: nat, rmode: nat) -> Option<FPMoveFPSize> {
    if ftype == 3 && rmode == 0 {
        Some(FPMoveFPSize::Half)
    } else if ftype == 0 && rmode == 0 {
        Some(FPMoveFPSize::Single)
    } else if ftype == 1 && rmode == 0 {
        Some(FPMoveFPSize::LowerDouble)
    } else if ftype == 1 && rmode == 1 {
        Some(FPMoveFPSize::UpperDouble)
    } else {
        None
    }
}

/// The conversion and its signedness, from `opcode` and `rmode`.
pub open spec fn conversion(opcode: nat, rmode: nat) -> Option<(ConvertFPIntegerOp, bool)> {
    if rmode == 0 {
        if opcode == 0 {
            Some((ConvertFPIntegerOp::FPToInteger { rounding_mode: FPToIntegerRoundingMode::Even }, true))
        } else if opcode == 1 {
            Some((ConvertFPIntegerOp::FPToInteger { rounding_mode: FPToIntegerRoundingMode::Even }, false))
        } else if opcode == 2 {
            Some((ConvertFPIntegerOp::IntegerToFP, true))
        } else if opcode == 3 {
            Some((ConvertFPIntegerOp::IntegerToFP, false))
        } else if opcode == 4 {
            Some((ConvertFPIntegerOp::FPToInteger { rounding_mode: FPToIntegerRoundingMode::Away }, true))
        } else if opcode == 5 {
            Some((ConvertFPIntegerOp::FPToInteger { rounding_mode: FPToIntegerRoundingMode::Away }, false))
        } else {
            None
        }
    } else if rmode == 1 && opcode == 0 {
        Some((ConvertFPIntegerOp::FPToInteger { rounding_mode: FPToIntegerRoundingMode::PlusInfinity }, true))
    } else if rmode == 1 && opcode == 1 {
        Some((ConvertFPIntegerOp::FPToInteger { rounding_mode: FPToIntegerRoundingMode::PlusInfinity }, false))
    } else if rmode == 2 && opcode == 1 {
        Some((ConvertFPIntegerOp::FPToInteger { rounding_mode: FPToIntegerRoundingMode::MinusInfinity }, false))
    } else if rmode == 2 && opcode == 0 {
        Some((ConvertFPIntegerOp::FPToInteger { rounding_mode: FPToIntegerRoundingMode::MinusInfinity }, true))
    } else {
        None
    }
}

/// The scalar precision from `ftype`.
pub open spec fn fp_size_from(ftype: nat) -> FPSize {
    if ftype == 0 {
        FPSize::Single
    } else if ftype == 1 {
        FPSize::Double
    } else {
        FPSize::Half
    }
}

/// The two-source operation from `opcode`.
pub open spec fn fp_processing_op(opcode: nat) -> Option<FPProcessingOp> {
    if opcode == 0 {
        Some(FPProcessingOp::Multiply)
    } else if opcode == 1 {
        Some(FPProcessingOp::Divide)
    } else if opcode == 2 {
        Some(FPProcessingOp::Add)
    } else if opcode == 3 {
        Some(FPProcessingOp::Subtract)
    } else if opcode == 4 {
        Some(FPProcessingOp::Maximum)
    } else if opcode == 5 {
        Some(FPProcessingOp::Minimum)
    } else if opcode == 6 {
        Some(FPProcessingOp::MaximumNumber)
    } else if opcode == 7 {
        Some(FPProcessingOp::MinimumNumber)
    } else if opcode == 8 {
        Some(FPProcessingOp::NegatedMultiply)
    } else {
        None
    }
}

/// The words on which this decoder is defined: an FMOV needs one of the listed
/// sizes, any other conversion one of the listed conversions and a precision other
/// than `ftype = 10`, and a two-source operation a precision other than `ftype = 10`.
pub open spec fn decodable(v: u32) -> bool {
    if is_fp_integer_conversion(v) {
        let opcode = field(v, 16, 3);
        if opcode == 6 || opcode == 7 {
            fp_move_size(field(v, 22, 2), field(v, 19, 2)) is Some
        } else {
            conversion(opcode, field(v, 19, 2)) is Some && field(v, 22, 2) != 2
        }
    } else if is_fp_two_source(v) {
        field(v, 22, 2) != 2
    } else {
        true
    }
}

/// The floating-point instruction encoded by `v`, if it is one; Advanced SIMD
/// three-same words are reported as `Unknown`.
pub open spec fn spec_decode(v: u32) -> Option<Instruction> {
    if is_fp_integer_conversion(v) {
        let opcode = field(v, 16, 3);
        if opcode == 6 || opcode == 7 {
            let to_integer = opcode == 6;
            Some(
                Instruction::FPMove {
                    destination: if to_integer {
                        reg(v, 0, false)
                    } else {
                        simd_reg(v, 0)
                    },
                    direction: if to_integer {
                        FPMoveDirection::FPToInteger
                    } else {
                        FPMoveDirection::IntegerToFP
                    },
                    fp_size: fp_move_size(field(v, 22, 2), field(v, 19, 2)).unwrap(),
                    integer_size: variant_of(v),
                    operand: if to_integer {
                        simd_reg(v, 5)
                    } else {
                        reg(v, 5, false)
                    },
                },
            )
        } else {
            let (op, signed) = conversion(opcode, field(v, 19, 2)).unwrap();
            let to_integer = op is FPToInteger;
            Some(
                Instruction::ConvertFPInteger {
                    destination: if to_integer {
                        reg(v, 0, false)
                    } else {
                        simd_reg(v, 0)
                    },
                    fp_size: fp_size_from(field(v, 22, 2)),
                    integer_size: variant_of(v),
                    op,
                    operand: if to_integer {
                        simd_reg(v, 5)
                    } else {
                        reg(v, 5, false)
                    },
                    signed,
                },
            )
        }
    } else if is_fp_two_source(v) {
        match fp_processing_op(field(v, 12, 4)) {
            Some(op) => Some(
                Instruction::FPProcessing {
                    destination: simd_reg(v, 0),
                    op,
                    operand1: simd_reg(v, 5),
                    operand2: simd_reg(v, 16),
                    size: fp_size_from(field(v, 22, 2)),
                },
            ),
            None => None,
        }
    } else if is_simd_three_same(v) {
        Some(Instruction::Unknown)
    } else {
        None
    }
}

/// Decodes the conversions between floating-point and integer registers (FMOV,
/// FCVT*, SCVTF, UCVTF) and the two-source floating-point operations.
pub fn decode(bytes: InstructionBytes) -> (r: Option<Instruction>)
    requires
        decodable(bytes.0),
    ensures
        r == spec_decode(bytes.0),
{
    proof {
        lemma2_to64();
    }
    // Conversion between floating-point and integer
    if equal_masked(
        bytes.0,
        0b0101_1111_0010_0000_1111_1100_0000_0000,
        0b0001_1110_0010_0000_0000_0000_0000_0000,
    ) {
        let opcode = bytes.immediate_unsigned(16, 3);
        let ftype = bytes.immediate_unsigned(22, 2);
        let rmode = bytes.immediate_unsigned(19, 2);

        if opcode == 0b110 || opcode == 0b111 {
            return Some(
                Instruction::FPMove {
                    destination: if opcode == 0b110 {
                        bytes.register(0, false)
                    } else {
                        bytes.register_simd(0)
                    },
                    direction: if opcode == 0b110 {
                        FPMoveDirection::FPToInteger
                    } else {
                        FPMoveDirection::IntegerToFP
                    },
                    fp_size: if ftype == 0b11 && rmode == 0b00 {
                        FPMoveFPSize::Half
                    } else if ftype == 0b00 && rmode == 0b00 {
                        FPMoveFPSize::Single
                    } else if ftype == 0b01 && rmode == 0b00 {
                        FPMoveFPSize::LowerDouble
                    } else {
                        FPMoveFPSize::UpperDouble
                    },
                    integer_size: bytes.variant(),
                    operand: if opcode == 0b110 {
                        bytes.register_simd(5)
                    } else {
                        bytes.register(5, false)
                    },
                },
            );
        }
        let (op, signed) = if rmode == 0b00 {
            if opcode == 0b000 {
                (ConvertFPIntegerOp::FPToInteger { rounding_mode: FPToIntegerRoundingMode::Even }, true)
            } else if opcode == 0b001 {
                (ConvertFPIntegerOp::FPToInteger { rounding_mode: FPToIntegerRoundingMode::Even }, false)
            } else if opcode == 0b010 {
                (ConvertFPIntegerOp::IntegerToFP, true)
            } else if opcode == 0b011 {
                (ConvertFPIntegerOp::IntegerToFP, false)
            } else if opcode == 0b100 {
                (ConvertFPIntegerOp::FPToInteger { rounding_mode: FPToIntegerRoundingMode::Away }, true)
            } else {
                (ConvertFPIntegerOp::FPToInteger { rounding_mode: FPToIntegerRoundingMode::Away }, false)
            }
        } else if rmode == 0b01 && opcode == 0b000 {
            (ConvertFPIntegerOp::FPToInteger { rounding_mode: FPToIntegerRoundingMode::PlusInfinity }, true)
        } else if rmode == 0b01 && opcode == 0b001 {
            (ConvertFPIntegerOp::FPToInteger { rounding_mode: FPToIntegerRoundingMode::PlusInfinity }, false)
        } else if rmode == 0b10 && opcode == 0b001 {
            (ConvertFPIntegerOp::FPToInteger { rounding_mode: FPToIntegerRoundingMode::MinusInfinity }, false)
        } else {
            (ConvertFPIntegerOp::FPToInteger { rounding_mode: FPToIntegerRoundingMode::MinusInfinity }, true)
        };
        let to_integer = matches!(op, ConvertFPIntegerOp::FPToInteger { .. });

        return Some(
            Instruction::ConvertFPInteger {
                destination: if to_integer {
                    bytes.register(0, false)
                } else {
                    bytes.register_simd(0)
                },
                op,
                signed,
                fp_size: if ftype == 0b00 {
                    FPSize::Single
                } else if ftype == 0b01 {
                    FPSize::Double
                } else {
                    FPSize::Half
                },
                integer_size: bytes.variant(),
                operand: if to_integer {
                    bytes.register_simd(5)
                } else {
                    bytes.register(5, false)
                },
            },
        );
    }
    // Floating-point data-processing (2 source)

    if equal_masked(
        bytes.0,
        0b1111_1111_0010_0000_0000_1100_0000_0000,
        0b0001_1110_0010_0000_0000_1000_0000_0000,
    ) {
        let ftype = bytes.immediate_unsigned(22, 2);
        let size = if ftype == 0b00 {
            FPSize::Single
        } else if ftype == 0b01 {
            FPSize::Double
        } else {
            FPSize::Half
        };
        let opcode = bytes.immediate_unsigned(12, 4);

        let op = if opcode == 0b0000 {
            FPProcessingOp::Multiply
        } else if opcode == 0b0001 {
            FPProcessingOp::Divide
        } else if opcode == 0b0010 {
            FPProcessingOp::Add
        } else if opcode == 0b0011 {
            FPProcessingOp::Subtract
        } else if opcode == 0b0100 {
            FPProcessingOp::Maximum
        } else if opcode == 0b0101 {
            FPProcessingOp::Minimum
        } else if opcode == 0b0110 {
            FPProcessingOp::MaximumNumber
        } else if opcode == 0b0111 {
            FPProcessingOp::MinimumNumber
        } else if opcode == 0b1000 {
            FPProcessingOp::NegatedMultiply
        } else {
            return None;
        };

        return Some(
            Instruction::FPProcessing {
                destination: bytes.register_simd(0),
                op,
                operand1: bytes.register_simd(5),
                operand2: bytes.register_simd(16),
                size,
            },
        );
    }
    // Advanced SIMD three same

    if equal_masked(
        bytes.0,
        0b1000_1111_0010_0000_0000_0100_0000_0000,
        0b0000_1110_0010_0000_0000_0100_0000_0000,
    ) {
        return Some(Instruction::Unknown);
    }
    None
}

} // verus!
