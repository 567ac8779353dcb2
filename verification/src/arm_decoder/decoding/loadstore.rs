use vstd::prelude::*;
use vstd::arithmetic::power2::lemma2_to64;
use crate::arm_decoder::instructions::{Instruction, LoadStoreOffset, LoadStoreOp};
use crate::arm_decoder::structures::{
    Extension, InstructionBytes, SizeVariant, SliceSize, WritebackOffset, bit, reg, simm,
};
use crate::arm_decoder::utilities::{equal_masked, field};

verus! {

/// Load/store register (unsigned immediate).
pub open spec fn is_unsigned_immediate(v: u32) -> bool {
    (v & 0b0011_1011_0000_0000_0000_0000_0000_0000) == 0b0011_1001_0000_0000_0000_0000_0000_0000
}

/// Load/store register (register offset).
pub open spec fn is_register_offset(v: u32) -> bool {
    (v & 0b0011_1011_0010_0000_0000_1100_0000_0000) == 0b0011_1000_0010_0000_0000_1000_0000_0000
}

/// Load/store register (unscaled immediate, post-indexed and pre-indexed).
pub open spec fn is_signed_immediate(v: u32) -> bool {
    (v & 0b0011_1011_0010_0000_0000_0000_0000_0000) == 0b0011_1000_0000_0000_0000_0000_0000_0000
}

/// Load register (literal).
pub open spec fn is_load_literal(v: u32) -> bool {
    (v & 0b0011_1111_0000_0000_0000_0000_0000_0000) == 0b0001_1000_0000_0000_0000_0000_0000_0000
}

/// Any of the register load and store forms.
pub open spec fn is_register_access(v: u32) -> bool {
    is_signed_immediate(v) || is_register_offset(v) || is_unsigned_immediate(v)
}

/// The unscaled immediate form: a signed immediate form with bits 10 and 11 clear.
pub open spec fn is_unscaled_immediate(v: u32) -> bool {
    is_signed_immediate(v) && field(v, 10, 2) == 0
}

/// The operation and access size of a general purpose load or store, from the
/// `size` and `opc` fields.
pub open spec fn gp_operation(size: nat, opc: nat) -> Option<(LoadStoreOp, SliceSize)> {
    let slice = if size == 0 {
        SliceSize::Byte
    } else if size == 1 {
        SliceSize::Halfword
    } else if size == 2 {
        SliceSize::Word
    } else {
        SliceSize::Doubleword
    };
    if size == 3 {
        if opc <= 1 {
            Some((LoadStoreOp::Store, slice))
        } else {
            None
        }
    } else if opc == 0 {
        Some((LoadStoreOp::Store, slice))
    } else if opc == 1 {
        Some((LoadStoreOp::LoadZeroExtend, slice))
    } else if opc == 2 {
        Some((LoadStoreOp::LoadSignExtend { variant: SizeVariant::Reg64 }, slice))
    } else if size == 2 {
        None
    } else {
        Some((LoadStoreOp::LoadSignExtend { variant: SizeVariant::Reg32 }, slice))
    }
}

/// The extension applied to the index register, from the `option` field.
pub open spec fn index_extension(option: nat) -> Extension {
    if option == 2 {
        Extension { size: SliceSize::Word, signed: false }
    } else if option == 6 {
        Extension { size: SliceSize::Word, signed: true }
    } else {
        Extension { size: SliceSize::Doubleword, signed: false }
    }
}

/// The byte offset of an immediate form, scaled by the access size where the form
/// scales it.
pub open spec fn immediate_offset(v: u32, size: SliceSize) -> int {
    if is_unscaled_immediate(v) {
        simm(v, 12, 9)
    } else if is_unsigned_immediate(v) {
        field(v, 10, 12) * size.bytes()
    } else {
        simm(v, 12, 9) * size.bytes()
    }
}

/// The words on which this decoder is defined: the register offset form needs an
/// `option` of UXTW, LSL, SXTW or SXTX, and the indexed immediate forms must not be
/// the unprivileged variant.
pub open spec fn decodable(v: u32) -> bool {
    if is_register_access(v) && !bit(v, 26) && gp_operation(
        field(v, 30, 2),
        field(v, 22, 2),
    ) is Some {
        if is_register_offset(v) {
            let option = field(v, 13, 3);
            option == 2 || option == 3 || option == 6 || option == 7
        } else if !is_unsigned_immediate(v) && !is_unscaled_immediate(v) {
            field(v, 10, 2) != 2
        } else {
            true
        }
    } else {
        true
    }
}

/// The general purpose load or store encoded by `v`, if it is one.
pub open spec fn spec_decode(v: u32) -> Option<Instruction> {
    if is_register_access(v) {
        if bit(v, 26) {
            None
        } else {
            match gp_operation(field(v, 30, 2), field(v, 22, 2)) {
                None => None,
                Some((op, size)) => if is_register_offset(v) {
                    Some(
                        Instruction::LoadStoreRegister {
                            address: reg(v, 5, true),
                            offset: LoadStoreOffset::Register {
                                extension: index_extension(field(v, 13, 3)),
                                register: reg(v, 16, false),
                                shift_amount: if bit(v, 12) {
                                    size.log_bytes()
                                } else {
                                    0
                                },
                            },
                            op,
                            size,
                            value: reg(v, 0, true),
                        },
                    )
                } else {
                    let offset = immediate_offset(v, size) as i32;
                    Some(
                        Instruction::LoadStoreRegister {
                            address: reg(v, 5, true),
                            offset: LoadStoreOffset::Immediate {
                                offset: if is_unsigned_immediate(v) || is_unscaled_immediate(v) {
                                    WritebackOffset { access: offset, writeback: None }
                                } else if field(v, 10, 2) == 1 {
                                    WritebackOffset { access: 0, writeback: Some(offset) }
                                } else {
                                    WritebackOffset { access: offset, writeback: Some(offset) }
                                },
                            },
                            op,
                            size,
                            value: reg(v, 0, false),
                        },
                    )
                },
            }
        }
    } else if is_load_literal(v) {
        if bit(v, 26) {
            None
        } else {
            let opc = field(v, 30, 2);
            if opc == 3 {
                Some(Instruction::PrefetchMemory)
            } else {
                Some(
                    Instruction::LoadLiteral {
                        destination: reg(v, 0, false),
                        relative_instruction_offset: simm(v, 5, 19) as i64,
                        sign_extend: opc == 2,
                        size: if opc == 1 {
                            SliceSize::Doubleword
                        } else {
                            SliceSize::Word
                        },
                    },
                )
            }
        }
    } else {
        None
    }
}

/// Decodes the general purpose register loads and stores (unsigned immediate,
/// register offset, unscaled immediate, pre- and post-indexed forms) and the
/// literal loads.
pub fn decode(bytes: InstructionBytes) -> (r: Option<Instruction>)
    requires
        decodable(bytes.0),
    ensures
        r == spec_decode(bytes.0),
{
    proof {
        lemma2_to64();
    }
    // VR = 1 => Floating point
    let is_fp = bytes.bool(26);

    let is_unsigned_immediate = equal_masked(
        bytes.0,
        0b0011_1011_0000_0000_0000_0000_0000_0000,
        0b0011_1001_0000_0000_0000_0000_0000_0000,
    );

    let is_register_offset = equal_masked(
        bytes.0,
        0b0011_1011_0010_0000_0000_1100_0000_0000,
        0b0011_1000_0010_0000_0000_1000_0000_0000,
    );

    let is_signed_immediate = equal_masked(
        bytes.0,
        0b0011_1011_0010_0000_0000_0000_0000_0000,
        0b0011_1000_0000_0000_0000_0000_0000_0000,
    );

    if is_signed_immediate || is_register_offset || is_unsigned_immediate {
        let is_unscaled_immediate = is_signed_immediate && bytes.immediate_unsigned(10, 2) == 0b00;

        if is_fp {
            return None;
        }
        let size_field = bytes.immediate_unsigned(30, 2);
        let opc = bytes.immediate_unsigned(22, 2);
        let size = if size_field == 0 {
            SliceSize::Byte
        } else if size_field == 1 {
            SliceSize::Halfword
        } else if size_field == 2 {
            SliceSize::Word
        } else {
            SliceSize::Doubleword
        };
        let op = if size_field == 3 {
            if opc <= 1 {
                LoadStoreOp::Store
            } else {
                return None;
            }
        } else if opc == 0 {
            LoadStoreOp::Store
        } else if opc == 1 {
            LoadStoreOp::LoadZeroExtend
        } else if opc == 2 {
            LoadStoreOp::LoadSignExtend { variant: SizeVariant::Reg64 }
        } else if size_field == 2 {
            return None;
        } else {
            LoadStoreOp::LoadSignExtend { variant: SizeVariant::Reg32 }
        };

        if is_register_offset {
            let option = bytes.immediate_unsigned(13, 3);
            return Some(
                Instruction::LoadStoreRegister {
                    address: bytes.register(5, true),
                    offset: LoadStoreOffset::Register {
                        extension: if option == 0b010 {
                            Extension::uxtw()
                        } else if option == 0b110 {
                            Extension::sxtw()
                        } else {
                            Extension::uxtx()
                        },
                        register: bytes.register(16, false),
                        shift_amount: if bytes.bool(12) {
                            size.log_byte_count()
                        } else {
                            0
                        },
                    },
                    op,
                    size,
                    value: bytes.register(0, true),
                },
            );
        } else {
            let scale = size.byte_count() as i32;
            assert(1 <= scale <= 8);
            let offset = if is_unscaled_immediate {
                bytes.immediate(12, 9, true)
            } else if is_unsigned_immediate {
                (bytes.immediate_unsigned(10, 12) as i32) * scale
            } else {
                bytes.immediate(12, 9, true) * scale
            };
            let index_mode = bytes.immediate_unsigned(10, 2);

            return Some(
                Instruction::LoadStoreRegister {
                    address: bytes.register(5, true),
                    offset: LoadStoreOffset::Immediate {
                        offset: if is_unsigned_immediate || is_unscaled_immediate {
                            WritebackOffset { access: offset, writeback: None }
                        } else if index_mode == 0b01 {
                            // Post index with writeback
                            WritebackOffset { access: 0, writeback: Some(offset) }
                        } else {
                            // Pre index with writeback
                            WritebackOffset { access: offset, writeback: Some(offset) }
                        },
                    },
                    op,
                    size,
                    value: bytes.register(0, false),
                },
            );
        }
    }
    // Load literal

    if equal_masked(
        bytes.0,
        0b0011_1111_0000_0000_0000_0000_0000_0000,
        0b0001_1000_0000_0000_0000_0000_0000_0000,
    ) {
        if is_fp {
            return None;
        }
        let opc = bytes.immediate_unsigned(30, 2);
        if opc == 0b11 {
            return Some(Instruction::PrefetchMemory);
        }
        return Some(
            Instruction::LoadLiteral {
                destination: bytes.register(0, false),
                relative_instruction_offset: bytes.immediate(5, 19, true) as i64,
                sign_extend: opc == 0b10,
                size: if opc == 0b01 {
                    SliceSize::Doubleword
                } else {
                    SliceSize::Word
                },
            },
        );
    }
    None
}

/// Whether this decoder is defined on `bytes`.
pub fn is_decodable(bytes: InstructionBytes) -> (r: bool)
    ensures
        r == decodable(bytes.0),
{
    proof {
        lemma2_to64();
    }
    let unsigned_immediate = equal_masked(
        bytes.0,
        0b0011_1011_0000_0000_0000_0000_0000_0000,
        0b0011_1001_0000_0000_0000_0000_0000_0000,
    );
    let register_offset = equal_masked(
        bytes.0,
        0b0011_1011_0010_0000_0000_1100_0000_0000,
        0b0011_1000_0010_0000_0000_1000_0000_0000,
    );
    let signed_immediate = equal_masked(
        bytes.0,
        0b0011_1011_0010_0000_0000_0000_0000_0000,
        0b0011_1000_0000_0000_0000_0000_0000_0000,
    );
    let size = bytes.immediate_unsigned(30, 2);
    let opc = bytes.immediate_unsigned(22, 2);
    let known_operation = !((size == 3 && opc >= 2) || (size == 2 && opc == 3));
    let index_mode = bytes.immediate_unsigned(10, 2);
    if (signed_immediate || register_offset || unsigned_immediate) && !bytes.bool(26)
        && known_operation {
        if register_offset {
            let option = bytes.immediate_unsigned(13, 3);
            option == 2 || option == 3 || option == 6 || option == 7
        } else if !unsigned_immediate && !(signed_immediate && index_mode == 0) {
            index_mode != 2
        } else {
            true
        }
    } else {
        true
    }
}

} // verus!
