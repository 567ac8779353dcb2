use arm_to_wasm::reboot::instruction_helper::InstructionInfo;
use arm_to_wasm::reboot::instructions::{
    words_decodable, Address, AddressingMode, Condition, Extend, Instruction, Register, Shift,
    ShiftExtend, SizeVariant,
};
use arm_to_wasm::reboot::module::{BinaryOp, LoadVariant, StoreVariant};
use arm_to_wasm::reboot::translation::{
    get_reg_local_index, FIRST_GP_REGISTER_LOCAL_INDEX, SP_LOCAL_INDEX,
};
use arm_to_wasm::module::memory::ValueType;

#[test]
fn reboot_decodes_system_instructions() {
    assert!(Instruction::is_decodable(0xd503201f));
    assert_eq!(Instruction::decode(0xd503201f), Instruction::Nop);
    assert_eq!(Instruction::decode(0xd4000021), Instruction::SupervisorCall { argument: 1 });
    assert_eq!(
        Instruction::decode(0xd65f03c0),
        Instruction::Return { target: Register::X30 }
    );
}

#[test]
fn reboot_decodes_arithmetic() {
    assert_eq!(
        Instruction::decode(0x91004020),
        Instruction::AddImmediate {
            destination: Register::X0,
            operand: 16,
            source: Register::X1,
            variant: SizeVariant::Reg64,
        }
    );
    assert_eq!(
        Instruction::decode(0xd10183ff),
        Instruction::SubImmediate {
            destination: Register::SP,
            operand: 0x60,
            source: Register::SP,
            variant: SizeVariant::Reg64,
        }
    );
    // cmp x0, #1 (subs xzr, x0, #1)
    assert_eq!(
        Instruction::decode(0xf100041f),
        Instruction::SubsImmediate {
            destination: Register::XZR,
            operand: 1,
            source: Register::X0,
            variant: SizeVariant::Reg64,
        }
    );
    // mov x0, x1 (orr x0, xzr, x1)
    assert_eq!(
        Instruction::decode(0xaa0103e0),
        Instruction::BitwiseOrShiftedRegister {
            destination: Register::X0,
            operand1: Register::XZR,
            operand2: Register::X1,
            shift_amount: 0,
            shift_type: Shift::LSL,
            variant: SizeVariant::Reg64,
        }
    );
}

#[test]
fn reboot_decodes_branches() {
    assert_eq!(Instruction::decode(0x14000002), Instruction::Branch { target: 2 });
    assert_eq!(Instruction::decode(0x97fffffc), Instruction::BranchWithLink { target: -4 });
    assert_eq!(
        Instruction::decode(0x54000061),
        Instruction::BranchConditionally { target: 3, condition: Condition::NE }
    );
    // tbnz x0, #33, +2
    assert_eq!(
        Instruction::decode(0xb7080040),
        Instruction::TestBitAndBranchIfNonzero {
            bit: 33,
            target: 2,
            value: Register::X0,
            variant: SizeVariant::Reg64,
        }
    );
}

#[test]
fn reboot_decodes_stores_and_loads() {
    assert_eq!(
        Instruction::decode(0xa9bf7bfd),
        Instruction::StorePairOfRegisters {
            address: Address {
                base: Register::SP,
                mode: AddressingMode::PreIndexWithWriteback { offset: -16 },
            },
            value1: Register::X29,
            value2: Register::X30,
            variant: SizeVariant::Reg64,
        }
    );
    // ldr x0, [x1, #8]
    assert_eq!(
        Instruction::decode(0xf9400420),
        Instruction::LoadRegisterImmediate {
            address: Address { base: Register::X1, mode: AddressingMode::PreIndex { offset: 8 } },
            destination: Register::X0,
            variant: SizeVariant::Reg64,
        }
    );
    // str x2, [sp, #8]
    assert_eq!(
        Instruction::decode(0xf90007e2),
        Instruction::StoreRegisterImmediate {
            address: Address { base: Register::SP, mode: AddressingMode::PreIndex { offset: 8 } },
            value: Register::X2,
            variant: SizeVariant::Reg64,
        }
    );
}

#[test]
fn reboot_decodes_move_and_addresses() {
    // movz x0, #1, lsl #16
    assert_eq!(
        Instruction::decode(0xd2a00020),
        Instruction::MoveWideWithZero {
            destination: Register::X0,
            value: 0x10000,
            variant: SizeVariant::Reg64,
        }
    );
    assert_eq!(
        Instruction::decode(0x10000040),
        Instruction::FormPCRelativeAddress { destination: Register::X0, value: 8 }
    );
    assert_eq!(
        Instruction::decode(0xf0ffffe1),
        Instruction::FormPCRelativeAddressToPage { destination: Register::X1, value: -4096 }
    );
    assert!(Instruction::is_decodable(0x12345678));
    assert_eq!(Instruction::decode(0x00000000), Instruction::Unknown);
}

#[test]
fn reboot_decodes_byte_buffers() {
    let bytes = [0x1f, 0x20, 0x03, 0xd5, 0xc0, 0x03, 0x5f, 0xd6, 0x00];
    assert!(words_decodable(&bytes));
    assert_eq!(
        Instruction::decode_bytes(&bytes),
        vec![Instruction::Nop, Instruction::Return { target: Register::X30 }]
    );
}

#[test]
fn reboot_field_decoders() {
    assert_eq!(Register::decode(31, true), Register::XZR);
    assert_eq!(Register::decode(31, false), Register::SP);
    assert_eq!(Register::decode(4, true), Register::X4);
    assert_eq!(Extend::decode(2), Extend::UXTW);
    assert_eq!(Extend::decode(7), Extend::SXTX);
    assert_eq!(ShiftExtend::decode(0), ShiftExtend::NoShift);
    assert_eq!(ShiftExtend::decode(3), ShiftExtend::LSL);
    let mode = AddressingMode::PostIndexWithWriteback { offset: 16 };
    assert_eq!(mode.access_offset(), 0);
    assert_eq!(mode.writeback_offset(), Some(16));
    let mode = AddressingMode::PreIndex { offset: 8 };
    assert_eq!(mode.access_offset(), 8);
    assert_eq!(mode.writeback_offset(), None);
}

#[test]
fn reboot_registers_read_and_written() {
    let store = Instruction::StorePairOfRegisters {
        address: Address {
            base: Register::SP,
            mode: AddressingMode::PreIndexWithWriteback { offset: -16 },
        },
        value1: Register::X29,
        value2: Register::X30,
        variant: SizeVariant::Reg64,
    };
    assert_eq!(store.registers_read(), vec![Register::SP, Register::X29, Register::X30]);
    // only single-register stores report their written-back base register
    assert!(store.registers_written().is_empty());
    let push = Instruction::StoreRegisterImmediate {
        address: Address {
            base: Register::SP,
            mode: AddressingMode::PreIndexWithWriteback { offset: -16 },
        },
        value: Register::X0,
        variant: SizeVariant::Reg64,
    };
    assert_eq!(push.registers_read(), vec![Register::SP, Register::X0]);
    assert_eq!(push.registers_written(), vec![Register::SP]);
    let add = Instruction::AddImmediate {
        destination: Register::X0,
        operand: 1,
        source: Register::X1,
        variant: SizeVariant::Reg64,
    };
    assert_eq!(add.registers_read(), vec![Register::X1]);
    assert_eq!(add.registers_written(), vec![Register::X0]);
    assert!(Instruction::Nop.registers_read().is_empty());
    assert!(Instruction::Nop.registers_written().is_empty());
}

#[test]
fn reboot_register_locals() {
    assert_eq!(get_reg_local_index(Register::SP), SP_LOCAL_INDEX);
    assert_eq!(get_reg_local_index(Register::X0), FIRST_GP_REGISTER_LOCAL_INDEX);
    assert_eq!(get_reg_local_index(Register::X30), 35);
}

#[test]
fn reboot_memory_variants() {
    let narrow = LoadVariant::I32L8 { signed: true };
    assert_eq!(narrow.byte_count(), 1);
    assert_eq!(narrow.alignment(), 1);
    assert!(narrow.signed());
    assert_eq!(narrow.type_(), ValueType::I32);
    assert_eq!(LoadVariant::I64.byte_count(), 8);
    assert!(LoadVariant::I64.signed());
    assert_eq!(LoadVariant::I64L32 { signed: false }.type_(), ValueType::I64);
    assert!(!LoadVariant::I64L32 { signed: false }.signed());
    assert_eq!(StoreVariant::I64L16.byte_count(), 2);
    assert_eq!(StoreVariant::I64L16.alignment(), 2);
    assert_eq!(StoreVariant::I64L16.type_(), ValueType::I64);
    assert_eq!(StoreVariant::I32.type_(), ValueType::I32);
    assert_ne!(BinaryOp::ShrInt64, BinaryOp::ShrInt32);
}

#[test]
fn reboot_register_store_needs_a_register_extension() {
    // str x0, [x0, x0] with option 011 (bit 14 set), and with option 001 (bit 14 clear)
    assert!(Instruction::is_decodable(0xf8206800));
    assert!(!Instruction::is_decodable(0xf8202800));
}

#[test]
fn reboot_store_and_load_differ_in_bit_22() {
    // str x2, [sp, #8] and, with bit 22 set, ldr x2, [sp, #8]
    let store = 0xf90007e2;
    assert_eq!(
        Instruction::decode(store | (1 << 22)),
        Instruction::LoadRegisterImmediate {
            address: Address { base: Register::SP, mode: AddressingMode::PreIndex { offset: 8 } },
            destination: Register::X2,
            variant: SizeVariant::Reg64,
        }
    );
    // str w1, [x0], #-4 (post-index) and ldr w1, [x0], #-4; this decoder reads the
    // size from bit 31 alone, which both words have set
    let store = 0xb81fc401;
    assert_eq!(
        Instruction::decode(store),
        Instruction::StoreRegisterImmediate {
            address: Address {
                base: Register::X0,
                mode: AddressingMode::PostIndexWithWriteback { offset: -4 },
            },
            value: Register::X1,
            variant: SizeVariant::Reg64,
        }
    );
    assert_eq!(
        Instruction::decode(store | (1 << 22)),
        Instruction::LoadRegisterImmediate {
            address: Address {
                base: Register::X0,
                mode: AddressingMode::PostIndexWithWriteback { offset: -4 },
            },
            destination: Register::X1,
            variant: SizeVariant::Reg64,
        }
    );
}
