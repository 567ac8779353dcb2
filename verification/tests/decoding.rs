use arm_to_wasm::arm_decoder::decoding;
use arm_to_wasm::arm_decoder::decoding::{
    addsub, bitfield, branch, loadstore, loadstore_pair, logical, misc, movewide, select,
};
use arm_to_wasm::arm_decoder::instructions::{
    words_decodable, AddSubtractOp, AddSubtractRightOperand, BitfieldMoveMode, BranchTarget,
    ConditionalSelectMode, Instruction, LoadStoreOffset, LoadStoreOp, LogicalOp,
};
use arm_to_wasm::arm_decoder::structures::{
    Condition, Extension, InstructionBytes, Register, Shift, SizeVariant, SliceSize,
    WritebackOffset,
};
use arm_to_wasm::arm_decoder::utilities::{
    bit_mask, decode_bool, equal_masked, get_bits, get_bits_range, read_le_word, sign_extend,
};

fn le_bytes(words: &[u32]) -> Vec<u8> {
    let mut bytes = Vec::new();
    for word in words {
        bytes.extend_from_slice(&word.to_le_bytes());
    }
    bytes
}

#[test]
fn decodes_ret() {
    assert_eq!(
        Instruction::decode(0xd65f03c0),
        Instruction::Return { target: Register::X30 }
    );
}

#[test]
fn bit_helpers_extract_fields() {
    assert_eq!(bit_mask(0), 0);
    assert_eq!(bit_mask(5), 0b11111);
    assert_eq!(get_bits(0xd65f03c0, 5, 5), 30);
    assert_eq!(get_bits(0xabcd_1234, 16, 16), 0xabcd);
    assert_eq!(get_bits_range(0xabcd_1234, 0, 7), 0x34);
    assert!(decode_bool(0x8000_0000, 31));
    assert!(!decode_bool(0x8000_0000, 30));
    assert!(equal_masked(0x1234_5678, 0xff00_0000, 0x1200_0000));
    assert!(!equal_masked(0x1234_5678, 0xff00_0000, 0x1300_0000));
}

#[test]
fn sign_extend_reads_twos_complement() {
    assert_eq!(sign_extend(0x1ff, 9), -1);
    assert_eq!(sign_extend(0x0ff, 9), 255);
    assert_eq!(sign_extend(0x100, 9), -256);
    assert_eq!(sign_extend(0x3ff_fffc, 26), -4);
    assert_eq!(sign_extend(0xffff_ffff, 32), -1);
}

#[test]
fn reads_little_endian_words() {
    let bytes = [0xc0, 0x03, 0x5f, 0xd6, 0x1f, 0x20, 0x03, 0xd5];
    assert_eq!(read_le_word(&bytes, 0), 0xd65f03c0);
    assert_eq!(read_le_word(&bytes, 4), 0xd503201f);
}

#[test]
fn structures_decode_fields() {
    assert_eq!(Register::decode(31, true), Register::SP);
    assert_eq!(Register::decode(31, false), Register::XZR);
    assert_eq!(Register::decode(7, false), Register::X7);
    assert_eq!(Register::decode_simd(3), Register::V3);
    assert_eq!(Shift::decode(2, false), Shift::ASR);
    assert_eq!(Shift::decode(3, true), Shift::ROR);
    assert_eq!(Condition::decode(11, false), Condition::LT);
    assert_eq!(Condition::decode(14, true), Condition::AL);
    assert_eq!(SizeVariant::Reg32.byte_count(), 4);
    assert_eq!(SizeVariant::Reg64.log_byte_count(), 3);
    assert_eq!(SliceSize::Halfword.byte_count(), 2);
    assert_eq!(SliceSize::Doubleword.log_byte_count(), 3);
    assert_eq!(Extension::sxtw(), Extension { size: SliceSize::Word, signed: true });
    assert_eq!(Extension::uxtb(), Extension { size: SliceSize::Byte, signed: false });
}

#[test]
fn instruction_bytes_read_operands() {
    let bytes = InstructionBytes(0xd10183ff);
    assert!(bytes.bool(31));
    assert!(bytes.bool(30));
    assert!(!bytes.bool(29));
    assert_eq!(bytes.immediate_unsigned(10, 12), 0x60);
    assert_eq!(bytes.register(0, true), Register::SP);
    assert_eq!(bytes.register(0, false), Register::XZR);
    assert_eq!(bytes.variant(), SizeVariant::Reg64);
    assert_eq!(InstructionBytes(0x97fffffc).immediate(0, 26, true), -4);
    assert_eq!(InstructionBytes(0x97fffffc).immediate(0, 26, false), 0x3ff_fffc);
}

#[test]
fn decodes_add_immediate() {
    assert_eq!(
        Instruction::decode(0x91004020),
        Instruction::AddSubtract {
            destination: Register::X0,
            op: AddSubtractOp::Add,
            set_flags: false,
            operand1: Register::X0,
            operand2: AddSubtractRightOperand::Immediate(16),
            variant: SizeVariant::Reg64,
        }
    );
}

#[test]
fn decodes_sub_immediate_on_stack_pointer() {
    assert_eq!(
        Instruction::decode(0xd10183ff),
        Instruction::AddSubtract {
            destination: Register::SP,
            op: AddSubtractOp::Subtract,
            set_flags: false,
            operand1: Register::SP,
            operand2: AddSubtractRightOperand::Immediate(0x60),
            variant: SizeVariant::Reg64,
        }
    );
}

#[test]
fn decodes_shifted_immediate_of_add() {
    // add x0, x0, #1, lsl #12
    assert_eq!(
        addsub::decode(InstructionBytes(0x91400400)),
        Some(Instruction::AddSubtract {
            destination: Register::X0,
            op: AddSubtractOp::Add,
            set_flags: false,
            operand1: Register::X0,
            operand2: AddSubtractRightOperand::Immediate(4096),
            variant: SizeVariant::Reg64,
        })
    );
}

#[test]
fn decodes_add_shifted_register() {
    assert_eq!(
        Instruction::decode(0x8b020020),
        Instruction::AddSubtract {
            destination: Register::X0,
            op: AddSubtractOp::Add,
            set_flags: false,
            operand1: Register::X1,
            operand2: AddSubtractRightOperand::ShiftedRegister {
                register: Register::X2,
                shift_amount: 0,
                shift_type: Shift::LSL,
            },
            variant: SizeVariant::Reg64,
        }
    );
}

#[test]
fn decodes_add_extended_register() {
    assert_eq!(
        Instruction::decode(0x8b2143e0),
        Instruction::AddSubtract {
            destination: Register::X0,
            op: AddSubtractOp::Add,
            set_flags: false,
            operand1: Register::SP,
            operand2: AddSubtractRightOperand::ExtendedRegister {
                extension: Extension { size: SliceSize::Word, signed: false },
                left_shift_amount: 0,
                register: Register::X1,
            },
            variant: SizeVariant::Reg64,
        }
    );
}

#[test]
fn addsub_rejects_other_groups() {
    assert_eq!(addsub::decode(InstructionBytes(0xd503201f)), None);
    assert!(addsub::is_decodable(InstructionBytes(0xd503201f)));
}

#[test]
fn decodes_load_word_unsigned_offset() {
    // ldr w0, [x1, #8]
    assert_eq!(
        Instruction::decode(0xb9400820),
        Instruction::LoadStoreRegister {
            address: Register::X1,
            offset: LoadStoreOffset::Immediate {
                offset: WritebackOffset { access: 8, writeback: None },
            },
            op: LoadStoreOp::LoadZeroExtend,
            size: SliceSize::Word,
            value: Register::X0,
        }
    );
}

#[test]
fn decodes_doubleword_access_as_store() {
    // size 3 with opc 1 is taken as a doubleword store
    assert_eq!(
        Instruction::decode(0xf9400420),
        Instruction::LoadStoreRegister {
            address: Register::X1,
            offset: LoadStoreOffset::Immediate {
                offset: WritebackOffset { access: 8, writeback: None },
            },
            op: LoadStoreOp::Store,
            size: SliceSize::Doubleword,
            value: Register::X0,
        }
    );
}

#[test]
fn decodes_pre_indexed_store_with_scaled_offset() {
    // str x0, [sp, #-16]! : the nine-bit offset is scaled by the access size
    assert_eq!(
        loadstore::decode(InstructionBytes(0xf81f0fe0)),
        Some(Instruction::LoadStoreRegister {
            address: Register::SP,
            offset: LoadStoreOffset::Immediate {
                offset: WritebackOffset { access: -128, writeback: Some(-128) },
            },
            op: LoadStoreOp::Store,
            size: SliceSize::Doubleword,
            value: Register::X0,
        })
    );
}

#[test]
fn decodes_post_indexed_load_byte() {
    // ldrb w0, [x1], #1
    assert_eq!(
        loadstore::decode(InstructionBytes(0x38401420)),
        Some(Instruction::LoadStoreRegister {
            address: Register::X1,
            offset: LoadStoreOffset::Immediate {
                offset: WritebackOffset { access: 0, writeback: Some(1) },
            },
            op: LoadStoreOp::LoadZeroExtend,
            size: SliceSize::Byte,
            value: Register::X0,
        })
    );
}

#[test]
fn decodes_register_offset_load() {
    // ldr w0, [x1, x2, lsl #2]
    assert_eq!(
        loadstore::decode(InstructionBytes(0xb8627820)),
        Some(Instruction::LoadStoreRegister {
            address: Register::X1,
            offset: LoadStoreOffset::Register {
                extension: Extension { size: SliceSize::Doubleword, signed: false },
                register: Register::X2,
                shift_amount: 2,
            },
            op: LoadStoreOp::LoadZeroExtend,
            size: SliceSize::Word,
            value: Register::X0,
        })
    );
}

#[test]
fn decodes_load_literal_and_prefetch() {
    // ldr x0, #8
    assert_eq!(
        loadstore::decode(InstructionBytes(0x58000040)),
        Some(Instruction::LoadLiteral {
            destination: Register::X0,
            relative_instruction_offset: 2,
            sign_extend: false,
            size: SliceSize::Doubleword,
        })
    );
    // prfm pldl1keep, #8
    assert_eq!(loadstore::decode(InstructionBytes(0xd8000040)), Some(Instruction::PrefetchMemory));
}

#[test]
fn decodes_logical_immediate() {
    // and x0, x1, #0xff
    assert_eq!(
        Instruction::decode(0x92401c20),
        Instruction::LogicalImmediate {
            destination: Register::X0,
            op: LogicalOp::And { set_flags: false },
            operand1: Register::X1,
            operand2: 0xff,
            variant: SizeVariant::Reg64,
        }
    );
}

#[test]
fn decodes_logical_shifted_register() {
    // orr x0, xzr, x1
    assert_eq!(
        logical::decode(InstructionBytes(0xaa0103e0)),
        Some(Instruction::LogicalShiftedRegister {
            destination: Register::X0,
            inverse_operand2: false,
            op: LogicalOp::Or,
            operand1: Register::XZR,
            operand2: Register::X1,
            shift_amount: 0,
            shift_type: Shift::LSL,
            variant: SizeVariant::Reg64,
        })
    );
}

#[test]
fn expands_bitmask_immediates() {
    // N set: one 64-bit element
    assert_eq!(logical::decode_bitmask(true, 0b000111, 0, SizeVariant::Reg64), 0xff);
    assert_eq!(logical::decode_bitmask(false, 0b100111, 0, SizeVariant::Reg64), 0x00ff_00ff_00ff_00ff);
    assert_eq!(
        logical::decode_bitmask(false, 0b111100, 0, SizeVariant::Reg64),
        0x5555_5555_5555_5555
    );
    assert_eq!(
        logical::decode_bitmask(true, 0, 1, SizeVariant::Reg64),
        0x8000_0000_0000_0000
    );
    assert_eq!(
        logical::decode_bitmask(false, 0b000111, 0, SizeVariant::Reg32),
        0x0000_00ff_0000_00ff
    );
    assert_eq!(
        logical::decode_bitmask(true, 0b111110, 0, SizeVariant::Reg64),
        0x7fff_ffff_ffff_ffff
    );
    assert!(logical::is_decodable(InstructionBytes(0x92401c20)));
}

#[test]
fn decodes_system_instructions() {
    assert_eq!(Instruction::decode(0xd503201f), Instruction::Nop);
    assert_eq!(Instruction::decode(0xd4000001), Instruction::SupervisorCall { argument: 0 });
    assert_eq!(Instruction::decode(0xd4200020), Instruction::Breakpoint { immediate: 1 });
    assert_eq!(misc::decode(InstructionBytes(0x91004020)), None);
}

#[test]
fn decodes_pc_relative_addresses() {
    // adr x0, #8
    assert_eq!(
        Instruction::decode(0x10000040),
        Instruction::FormPCRelativeAddress {
            aligned_to_page: false,
            destination: Register::X0,
            value: 8,
        }
    );
    // adr x1, #-1: the pattern also requires bit 31 clear, so ADRP is not matched here
    assert_eq!(
        misc::decode(InstructionBytes(0x70ffffe1)),
        Some(Instruction::FormPCRelativeAddress {
            aligned_to_page: false,
            destination: Register::X1,
            value: -1,
        })
    );
    assert_eq!(misc::decode(InstructionBytes(0xf0ffffe1)), None);
}

#[test]
fn dispatch_leaves_branches_unknown() {
    assert_eq!(Instruction::decode(0x14000002), Instruction::Unknown);
    assert!(decoding::is_decodable(0x14000002));
}

#[test]
fn decodes_branches() {
    assert_eq!(
        branch::decode(InstructionBytes(0x14000002)),
        Some(Instruction::UnconditionalBranch {
            link: false,
            target: BranchTarget::RelativeInstructionOffset(2),
        })
    );
    assert_eq!(
        branch::decode(InstructionBytes(0x97fffffc)),
        Some(Instruction::UnconditionalBranch {
            link: true,
            target: BranchTarget::RelativeInstructionOffset(-4),
        })
    );
    assert_eq!(
        branch::decode(InstructionBytes(0xd61f0200)),
        Some(Instruction::UnconditionalBranch {
            link: false,
            target: BranchTarget::Register(Register::X16),
        })
    );
    assert_eq!(
        branch::decode(InstructionBytes(0xd63f0100)),
        Some(Instruction::UnconditionalBranch {
            link: true,
            target: BranchTarget::Register(Register::X8),
        })
    );
    assert_eq!(
        branch::decode(InstructionBytes(0x54000061)),
        Some(Instruction::BranchConditionally { condition: Condition::NE, target: 3 })
    );
    assert_eq!(
        branch::decode(InstructionBytes(0x36180040)),
        Some(Instruction::TestBitAndBranch {
            branch_if_zero: true,
            register: Register::X0,
            target: 2,
            test_bit: 3,
            variant: SizeVariant::Reg32,
        })
    );
    assert_eq!(branch::decode(InstructionBytes(0xd503201f)), None);
}

#[test]
fn decodes_move_wide() {
    // movz x0, #0x1234
    assert_eq!(
        movewide::decode(InstructionBytes(0xd2824680)),
        Some(Instruction::MoveWide {
            destination: Register::X0,
            keep_shift: None,
            source: Register::X20,
            value: 0x1234,
            variant: SizeVariant::Reg64,
        })
    );
    // movk x0, #1, lsl #16
    assert_eq!(
        movewide::decode(InstructionBytes(0xf2a00020)),
        Some(Instruction::MoveWide {
            destination: Register::X0,
            keep_shift: Some(16),
            source: Register::X1,
            value: 0x10000,
            variant: SizeVariant::Reg64,
        })
    );
    // movn w0, #0
    assert_eq!(
        movewide::decode(InstructionBytes(0x12800000)),
        Some(Instruction::MoveWide {
            destination: Register::X0,
            keep_shift: None,
            source: Register::X0,
            value: 0xffff_ffff,
            variant: SizeVariant::Reg32,
        })
    );
}

#[test]
fn decodes_conditional_select_with_flipped_condition() {
    // csel x0, x1, x2, eq
    assert_eq!(
        select::decode(InstructionBytes(0x9a820020)),
        Some(Instruction::ConditionalSelect {
            condition: Condition::NE,
            destination: Register::X0,
            op: ConditionalSelectMode::Identity,
            operand1: Register::X1,
            operand2: Register::X2,
            variant: SizeVariant::Reg64,
        })
    );
}

#[test]
fn decodes_bitfield_move() {
    // lsr x0, x1, #4 (ubfm x0, x1, #4, #63)
    assert_eq!(
        bitfield::decode(InstructionBytes(0xd344fc20)),
        Some(Instruction::BitfieldMove {
            destination: Register::X0,
            leftmost_bit_number: 4,
            mode: BitfieldMoveMode::Unsigned,
            right_rotate_amount: 63,
            source: Register::X1,
            variant: SizeVariant::Reg64,
        })
    );
}

#[test]
fn decodes_register_pairs() {
    // stp x29, x30, [sp, #-16]!
    assert_eq!(
        loadstore_pair::decode(InstructionBytes(0xa9bf7bfd)),
        Some(Instruction::LoadStorePairOfRegisters {
            address: Register::SP,
            offset: WritebackOffset { access: -16, writeback: Some(-16) },
            op: LoadStoreOp::Store,
            size: SizeVariant::Reg64,
            value1: Register::X29,
            value2: Register::X30,
            variant: SizeVariant::Reg64,
        })
    );
    // ldp x29, x30, [sp], #16
    assert_eq!(
        loadstore_pair::decode(InstructionBytes(0xa8c17bfd)),
        Some(Instruction::LoadStorePairOfRegisters {
            address: Register::SP,
            offset: WritebackOffset { access: 0, writeback: Some(16) },
            op: LoadStoreOp::LoadZeroExtend,
            size: SizeVariant::Reg64,
            value1: Register::X29,
            value2: Register::X30,
            variant: SizeVariant::Reg64,
        })
    );
}

#[test]
fn decodes_byte_buffers_in_order() {
    let mut bytes = le_bytes(&[0xd503201f, 0xd65f03c0]);
    bytes.push(0xaa);
    assert!(words_decodable(&bytes));
    let decoded = Instruction::decode_bytes(&bytes);
    assert_eq!(
        decoded,
        vec![Instruction::Nop, Instruction::Return { target: Register::X30 }]
    );
    assert!(Instruction::decode_bytes(&[]).is_empty());
}

#[test]
fn op_helpers_decode() {
    assert_eq!(AddSubtractOp::from_bool(true), AddSubtractOp::Subtract);
    assert_eq!(AddSubtractOp::from_bool(false), AddSubtractOp::Add);
    assert_eq!(LogicalOp::decode(2), LogicalOp::Xor);
    assert_eq!(LogicalOp::decode(3), LogicalOp::And { set_flags: true });
}

#[test]
fn sign_extension_round_trips() {
    for bits in 1..=12u32 {
        let half = 1i32 << (bits - 1);
        for x in -half..half {
            let stored = (x as u32) & ((1u32 << bits) - 1);
            assert_eq!(sign_extend(stored, bits), x);
        }
    }
    assert_eq!(sign_extend(0xffff_fff0, 32), -16);
}
