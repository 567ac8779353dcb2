use arm_to_wasm::arm::arch::Arm;
use arm_to_wasm::arm::registers::{
    default_param_register_list, flag_id_list, id, svc_param_register_list,
    svc_return_register_list, Flag, GP_ID_COUNT,
};
use arm_to_wasm::arm::translation::{resolve_shift_op, ArmInstruction};
use arm_to_wasm::arm_decoder::instructions::{
    AddSubtractOp, AddSubtractRightOperand, BranchTarget, Instruction, LoadStoreOffset,
    LoadStoreOp,
};
use arm_to_wasm::arm_decoder::structures::{
    Condition, Register, Shift, SizeVariant, SliceSize, WritebackOffset,
};
use arm_to_wasm::aw_core::architecture::{BranchKind, StackAccess, Width};
use arm_to_wasm::aw_core::instruction_helper::{InstructionInfo, SizedRegister};
use arm_to_wasm::module::expression::BinaryOp;

fn sub_sp(amount: u64) -> ArmInstruction {
    ArmInstruction(Instruction::AddSubtract {
        destination: Register::SP,
        op: AddSubtractOp::Subtract,
        set_flags: false,
        operand1: Register::SP,
        operand2: AddSubtractRightOperand::Immediate(amount),
        variant: SizeVariant::Reg64,
    })
}

fn store_pair_pre_indexed() -> ArmInstruction {
    ArmInstruction(Instruction::LoadStorePairOfRegisters {
        address: Register::SP,
        offset: WritebackOffset { access: -16, writeback: Some(-16) },
        op: LoadStoreOp::Store,
        size: SizeVariant::Reg64,
        value1: Register::X29,
        value2: Register::X30,
        variant: SizeVariant::Reg64,
    })
}

#[test]
fn register_ids() {
    assert_eq!(id(Register::X0), 0);
    assert_eq!(id(Register::X30), 30);
    assert_eq!(id(Register::SP), 31);
    assert_eq!(id(Register::XZR), 32);
    assert_eq!(id(Register::V0), 38);
    assert_eq!(id(Register::V31), 69);
    assert_eq!(Flag::Carry.id(), GP_ID_COUNT);
    assert_eq!(Flag::Overflow.id(), GP_ID_COUNT + 3);
    assert_eq!(flag_id_list(), vec![34, 35, 36, 37]);
}

#[test]
fn register_lists() {
    assert_eq!(default_param_register_list().len(), 9);
    assert_eq!(default_param_register_list()[8], Register::SP);
    assert_eq!(svc_param_register_list()[0], Register::X8);
    assert_eq!(svc_return_register_list(), vec![Register::X0, Register::X1]);
}

#[test]
fn arm_architecture_registers() {
    let arm = Arm;
    assert_eq!(arm.instruction_size(), 4);
    assert_eq!(arm.param_registers(), vec![0, 1, 2, 3, 4, 5, 6, 7, 31]);
    assert_eq!(arm.svc_param_registers(), vec![8, 0, 1, 2, 3, 4, 5]);
    assert_eq!(arm.svc_return_registers(), vec![0, 1]);
    assert_eq!(arm.stack_pointer_register(), 31);
    assert!(arm.is_zero_register(32));
    assert!(!arm.is_zero_register(31));
    assert_eq!(arm.local_width(35), Width::W32);
    assert_eq!(arm.local_width(3), Width::W64);
    let all = arm.all_registers();
    assert_eq!(all.len(), 44);
    assert_eq!(&all[0..9], &[0, 1, 2, 3, 4, 5, 6, 7, 31]);
    assert_eq!(all[9], 0);
    assert_eq!(all[39], 30);
    assert_eq!(&all[40..], &[34, 35, 36, 37]);
}

#[test]
fn arm_decodes_instruction_buffers() {
    let bytes = [0x1f, 0x20, 0x03, 0xd5, 0xc0, 0x03, 0x5f, 0xd6];
    let instructions = Arm.decode_instructions(&bytes);
    assert_eq!(instructions.len(), 2);
    assert_eq!(instructions[0].0, Instruction::Nop);
    assert_eq!(instructions[1].0, Instruction::Return { target: Register::X30 });
    assert_eq!(instructions[1].size(), 4);
}

#[test]
fn branch_kinds() {
    let jump = ArmInstruction(Instruction::UnconditionalBranch {
        link: false,
        target: BranchTarget::RelativeInstructionOffset(-2),
    });
    assert_eq!(
        jump.branch_kind(0x1008),
        BranchKind::Jump { conditional: false, target_address: 0x1000 }
    );
    let conditional = ArmInstruction(Instruction::BranchConditionally {
        condition: Condition::EQ,
        target: 3,
    });
    assert_eq!(
        conditional.branch_kind(0x1000),
        BranchKind::Jump { conditional: true, target_address: 0x100c }
    );
    let call = ArmInstruction(Instruction::UnconditionalBranch {
        link: true,
        target: BranchTarget::RelativeInstructionOffset(5),
    });
    assert_eq!(call.branch_kind(0x1000), BranchKind::Call);
    let indirect = ArmInstruction(Instruction::UnconditionalBranch {
        link: false,
        target: BranchTarget::Register(Register::X16),
    });
    assert_eq!(indirect.branch_kind(0x1000), BranchKind::NoBranch);
    let ret = ArmInstruction(Instruction::Return { target: Register::X30 });
    assert_eq!(ret.branch_kind(0x1000), BranchKind::Return);
    assert_eq!(ArmInstruction(Instruction::Nop).branch_kind(0), BranchKind::NoBranch);
}

#[test]
fn branch_targets_wrap_around_the_address_space() {
    let back = ArmInstruction(Instruction::BranchConditionally {
        condition: Condition::NE,
        target: -1,
    });
    assert_eq!(
        back.branch_kind(0),
        BranchKind::Jump { conditional: true, target_address: 0xffff_ffff_ffff_fffc }
    );
}

#[test]
fn stack_frame_effects() {
    assert_eq!(sub_sp(32).stack_frame_effect(31), (Some(32), vec![]));
    assert_eq!(sub_sp(32).stack_frame_effect(0), (None, vec![]));
    assert_eq!(
        store_pair_pre_indexed().stack_frame_effect(31),
        (
            Some(16),
            vec![
                StackAccess { offset: -16, size_bytes: 8, read: false, write: true },
                StackAccess { offset: -8, size_bytes: 8, read: false, write: true },
            ]
        )
    );
    let load = ArmInstruction(Instruction::LoadStoreRegister {
        address: Register::SP,
        offset: LoadStoreOffset::Immediate {
            offset: WritebackOffset { access: 8, writeback: None },
        },
        op: LoadStoreOp::LoadZeroExtend,
        size: SliceSize::Word,
        value: Register::X0,
    });
    assert_eq!(
        load.stack_frame_effect(31),
        (None, vec![StackAccess { offset: 8, size_bytes: 4, read: true, write: false }])
    );
    assert_eq!(ArmInstruction(Instruction::Nop).stack_frame_effect(31), (None, vec![]));
}

#[test]
fn registers_read_and_written_by_id() {
    let add = ArmInstruction(Instruction::AddSubtract {
        destination: Register::X0,
        op: AddSubtractOp::Add,
        set_flags: false,
        operand1: Register::X1,
        operand2: AddSubtractRightOperand::ShiftedRegister {
            register: Register::X2,
            shift_amount: 0,
            shift_type: Shift::LSL,
        },
        variant: SizeVariant::Reg64,
    });
    assert_eq!(add.registers_read(), vec![1, 2]);
    assert_eq!(add.registers_written(), vec![0]);
    let store = store_pair_pre_indexed();
    assert_eq!(store.registers_read(), vec![31, 29, 30]);
    assert_eq!(store.registers_written(), vec![31]);
}

#[test]
fn instruction_info_reports_widths() {
    let load = Instruction::LoadStoreRegister {
        address: Register::X1,
        offset: LoadStoreOffset::Immediate {
            offset: WritebackOffset { access: 0, writeback: Some(4) },
        },
        op: LoadStoreOp::LoadZeroExtend,
        size: SliceSize::Word,
        value: Register::X0,
    };
    assert_eq!(
        load.registers_read(),
        vec![SizedRegister { register: Register::X1, variant: SizeVariant::Reg64 }]
    );
    assert_eq!(
        load.registers_written(),
        vec![
            SizedRegister { register: Register::X1, variant: SizeVariant::Reg64 },
            SizedRegister { register: Register::X0, variant: SizeVariant::Reg32 },
        ]
    );
}

#[test]
fn shift_operations() {
    assert_eq!(resolve_shift_op(Shift::LSL, SizeVariant::Reg64), BinaryOp::ShlInt64);
    assert_eq!(resolve_shift_op(Shift::ASR, SizeVariant::Reg32), BinaryOp::ShrSInt32);
    assert_eq!(resolve_shift_op(Shift::ROR, SizeVariant::Reg64), BinaryOp::RotRInt64);
}
