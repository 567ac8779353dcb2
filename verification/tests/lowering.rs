use arm_to_wasm::arm::lowering::{
    arm_routine_context, is_lowerable, is_routine_lowerable, read_register, routine_addresses,
    translate_block, translate_routine, variant_unsigned_const, write_register, BlockBranch,
    FUNC_RETURN_SCRATCH_LOCAL, SVC_RETURN_SCRATCH_LOCAL,
};
use arm_to_wasm::arm::translation::ArmInstruction;
use arm_to_wasm::arm_decoder::instructions::{
    AddSubtractOp, AddSubtractRightOperand, BranchTarget, Instruction, LoadStoreOffset,
    LoadStoreOp, LogicalOp,
};
use arm_to_wasm::arm_decoder::structures::{
    Condition, Register, Shift, SizeVariant, SliceSize, WritebackOffset,
};
use arm_to_wasm::aw_core::analysis::{analyze_program, Block, CodeSegment, FunctionSymbol};
use arm_to_wasm::aw_core::architecture::Width;
use arm_to_wasm::aw_core::translator::RoutineContext;
use arm_to_wasm::module::expression::{
    BinaryOp, CallTarget, Expression, ExpressionList, Literal, UnaryOp,
};
use arm_to_wasm::module::memory::{LoadVariant, StoreVariant};

fn get(index: u32) -> Expression {
    Expression::LocalGet { index }
}

fn set(index: u32, value: Expression) -> Expression {
    Expression::LocalSet { index, value: Box::new(value) }
}

fn bin(op: BinaryOp, left: Expression, right: Expression) -> Expression {
    Expression::Binary { op, left: Box::new(left), right: Box::new(right) }
}

fn un(op: UnaryOp, operand: Expression) -> Expression {
    Expression::Unary { op, operand: Box::new(operand) }
}

fn c32(value: u32) -> Expression {
    Expression::Const(Literal::I32(value))
}

fn c64(value: u64) -> Expression {
    Expression::Const(Literal::I64(value))
}

fn list_len(list: &ExpressionList) -> usize {
    match list {
        ExpressionList::Empty => 0,
        ExpressionList::Cons(_, tail) => 1 + list_len(tail),
    }
}

fn context() -> RoutineContext {
    arm_routine_context(vec![0x2000, 0x1000])
}

fn lower(instruction: Instruction, address: u64) -> Vec<Expression> {
    let mut out = Vec::new();
    ArmInstruction(instruction).translate(&context(), address, &mut out);
    out
}

#[test]
fn registers_live_in_locals() {
    assert_eq!(read_register(0, Width::W64), get(0));
    assert_eq!(read_register(0, Width::W32), un(UnaryOp::WrapInt64, get(0)));
    assert_eq!(read_register(31, Width::W64), get(8));
    assert_eq!(read_register(9, Width::W64), get(10));
    assert_eq!(read_register(32, Width::W32), c32(0));
    assert_eq!(read_register(32, Width::W64), c64(0));
    assert_eq!(read_register(36, Width::W32), get(34));
    assert_eq!(read_register(35, Width::W64), un(UnaryOp::ExtendUInt32, get(33)));
    assert_eq!(write_register(32, Width::W64, c64(1)), Expression::Nop);
    assert_eq!(write_register(31, Width::W64, c64(1)), set(8, c64(1)));
    assert_eq!(write_register(1, Width::W32, c32(1)), set(1, un(UnaryOp::ExtendUInt32, c32(1))));
    assert_eq!(write_register(34, Width::W64, c64(1)), set(32, un(UnaryOp::WrapInt64, c64(1))));
    assert_eq!(variant_unsigned_const(SizeVariant::Reg32, 0x1_0000_0002), c32(2));
    assert_eq!(variant_unsigned_const(SizeVariant::Reg64, 0x1_0000_0002), c64(0x1_0000_0002));
}

#[test]
fn lowers_add_immediate() {
    let add = Instruction::AddSubtract {
        destination: Register::X0,
        op: AddSubtractOp::Add,
        set_flags: false,
        operand1: Register::X1,
        operand2: AddSubtractRightOperand::Immediate(16),
        variant: SizeVariant::Reg64,
    };
    assert_eq!(lower(add, 0x1000), vec![set(0, bin(BinaryOp::AddInt64, get(1), c64(16)))]);
}

#[test]
fn lowers_flag_setting_subtract() {
    // subs w0, w1, w2
    let subs = Instruction::AddSubtract {
        destination: Register::X0,
        op: AddSubtractOp::Subtract,
        set_flags: true,
        operand1: Register::X1,
        operand2: AddSubtractRightOperand::ShiftedRegister {
            register: Register::X2,
            shift_amount: 0,
            shift_type: Shift::LSL,
        },
        variant: SizeVariant::Reg32,
    };
    let op1 = || un(UnaryOp::WrapInt64, get(1));
    let op2 = || un(UnaryOp::WrapInt64, get(2));
    let result = || bin(BinaryOp::SubInt32, op1(), op2());
    let out = lower(subs, 0x1000);
    assert_eq!(out.len(), 5);
    assert_eq!(out[0], set(0, un(UnaryOp::ExtendUInt32, result())));
    assert_eq!(out[1], set(33, bin(BinaryOp::LtSInt32, result(), c32(0))));
    assert_eq!(out[2], set(34, bin(BinaryOp::EqInt32, result(), c32(0))));
    assert_eq!(out[3], set(32, bin(BinaryOp::GeUInt32, op1(), op2())));
    let sign = |e: Expression| bin(BinaryOp::LtSInt32, e, c32(0));
    assert_eq!(
        out[4],
        set(
            35,
            bin(
                BinaryOp::AndInt32,
                bin(BinaryOp::XorInt32, sign(op1()), sign(op2())),
                bin(BinaryOp::XorInt32, sign(op1()), sign(result())),
            )
        )
    );
}

#[test]
fn lowers_writes_to_the_zero_register_to_nothing() {
    // cmp x0, #1 as decoded with an XZR destination
    let cmp = Instruction::AddSubtract {
        destination: Register::XZR,
        op: AddSubtractOp::Subtract,
        set_flags: false,
        operand1: Register::X0,
        operand2: AddSubtractRightOperand::Immediate(1),
        variant: SizeVariant::Reg64,
    };
    assert_eq!(lower(cmp, 0), vec![Expression::Nop]);
}

#[test]
fn lowers_extended_operands() {
    let add = Instruction::AddSubtract {
        destination: Register::X0,
        op: AddSubtractOp::Add,
        set_flags: false,
        operand1: Register::SP,
        operand2: AddSubtractRightOperand::ExtendedRegister {
            extension: arm_to_wasm::arm_decoder::structures::Extension::uxtb(),
            left_shift_amount: 2,
            register: Register::X1,
        },
        variant: SizeVariant::Reg64,
    };
    assert_eq!(
        lower(add, 0),
        vec![set(
            0,
            bin(
                BinaryOp::AddInt64,
                get(8),
                bin(BinaryOp::ShlInt64, bin(BinaryOp::AndInt64, get(1), c64(0xff)), c64(2)),
            )
        )]
    );
}

#[test]
fn lowers_pc_relative_addresses() {
    let adrp = Instruction::FormPCRelativeAddress {
        aligned_to_page: true,
        destination: Register::X3,
        value: 0x2000,
    };
    assert_eq!(lower(adrp, 0x1234), vec![set(3, c64(0x3000))]);
    let adr = Instruction::FormPCRelativeAddress {
        aligned_to_page: false,
        destination: Register::X3,
        value: -4,
    };
    assert_eq!(lower(adr, 0x1234), vec![set(3, c64(0x1230))]);
}

#[test]
fn lowers_loads_and_stores() {
    let store = Instruction::LoadStoreRegister {
        address: Register::SP,
        offset: LoadStoreOffset::Immediate {
            offset: WritebackOffset { access: 8, writeback: None },
        },
        op: LoadStoreOp::Store,
        size: SliceSize::Word,
        value: Register::X0,
    };
    assert_eq!(
        lower(store, 0),
        vec![Expression::Store {
            variant: StoreVariant::I32,
            value: Box::new(un(UnaryOp::WrapInt64, get(0))),
            address: Box::new(get(8)),
            offset: 8,
            align: 1,
        }]
    );
    // ldrb w2, [x1], #1
    let load = Instruction::LoadStoreRegister {
        address: Register::X1,
        offset: LoadStoreOffset::Immediate {
            offset: WritebackOffset { access: 0, writeback: Some(1) },
        },
        op: LoadStoreOp::LoadZeroExtend,
        size: SliceSize::Byte,
        value: Register::X2,
    };
    assert_eq!(
        lower(load, 0),
        vec![
            set(
                2,
                un(
                    UnaryOp::ExtendUInt32,
                    Expression::Load {
                        variant: LoadVariant::I32L8 { signed: false },
                        address: Box::new(get(1)),
                        offset: 0,
                        align: 1,
                    }
                )
            ),
            set(1, bin(BinaryOp::AddInt64, get(1), c64(1))),
        ]
    );
    // a negative offset is added to the address
    let store_below = Instruction::LoadStoreRegister {
        address: Register::SP,
        offset: LoadStoreOffset::Immediate {
            offset: WritebackOffset { access: -16, writeback: Some(-16) },
        },
        op: LoadStoreOp::Store,
        size: SliceSize::Doubleword,
        value: Register::X29,
    };
    let out = lower(store_below, 0);
    assert_eq!(out.len(), 2);
    assert_eq!(
        out[0],
        Expression::Store {
            variant: StoreVariant::I64,
            value: Box::new(get(30)),
            address: Box::new(bin(BinaryOp::AddInt64, get(8), c64((-16i64) as u64))),
            offset: 0,
            align: 1,
        }
    );
}

#[test]
fn lowers_logical_instructions() {
    let orr = Instruction::LogicalShiftedRegister {
        destination: Register::X0,
        inverse_operand2: true,
        op: LogicalOp::Or,
        operand1: Register::XZR,
        operand2: Register::X1,
        shift_amount: 0,
        shift_type: Shift::LSL,
        variant: SizeVariant::Reg64,
    };
    assert_eq!(
        lower(orr, 0),
        vec![set(
            0,
            bin(BinaryOp::OrInt64, c64(0), bin(BinaryOp::XorInt64, get(1), c64(u64::MAX)))
        )]
    );
    let ands = Instruction::LogicalImmediate {
        destination: Register::X0,
        op: LogicalOp::And { set_flags: true },
        operand1: Register::X1,
        operand2: 0xff,
        variant: SizeVariant::Reg64,
    };
    let out = lower(ands, 0);
    assert_eq!(out.len(), 5);
    assert_eq!(out[3], set(32, c32(0)));
    assert_eq!(out[4], set(35, c32(0)));
}

#[test]
fn lowers_move_keep() {
    let movk = Instruction::MoveWide {
        destination: Register::X0,
        keep_shift: Some(16),
        source: Register::X0,
        value: 0x1_0000,
        variant: SizeVariant::Reg64,
    };
    assert_eq!(
        lower(movk, 0),
        vec![set(
            0,
            bin(
                BinaryOp::OrInt64,
                c64(0x1_0000),
                bin(BinaryOp::AndInt64, get(0), c64(0xffff_ffff_0000_ffff)),
            )
        )]
    );
    assert!(!is_lowerable(&Instruction::MoveWide {
        destination: Register::X0,
        keep_shift: Some(32),
        source: Register::X0,
        value: 0,
        variant: SizeVariant::Reg32,
    }));
}

#[test]
fn lowers_calls() {
    let call = Instruction::UnconditionalBranch {
        link: true,
        target: BranchTarget::RelativeInstructionOffset(4),
    };
    let out = lower(call, 0x0ff0);
    // the return registers X0..X7 and SP come back from the call
    assert_eq!(out.len(), 10);
    match &out[0] {
        Expression::LocalSet { index, value } => {
            assert_eq!(*index, FUNC_RETURN_SCRATCH_LOCAL);
            match value.as_ref() {
                Expression::Call { target, arguments } => {
                    assert_eq!(*target, CallTarget::Routine(1));
                    assert_eq!(list_len(arguments), 9);
                }
                other => panic!("unexpected {:?}", other),
            }
        }
        other => panic!("unexpected {:?}", other),
    }
    assert_eq!(
        out[9],
        set(
            8,
            Expression::TupleExtract {
                tuple: Box::new(get(FUNC_RETURN_SCRATCH_LOCAL)),
                index: 8
            }
        )
    );
    assert_eq!(lower(call, 0x3000), vec![Expression::Unreachable]);
}

#[test]
fn lowers_supervisor_calls() {
    let out = lower(Instruction::SupervisorCall { argument: 7 }, 0);
    assert_eq!(out.len(), 3);
    match &out[0] {
        Expression::LocalSet { index, value } => {
            assert_eq!(*index, SVC_RETURN_SCRATCH_LOCAL);
            match value.as_ref() {
                Expression::Call { target, arguments } => {
                    assert_eq!(*target, CallTarget::SupervisorCall);
                    assert_eq!(list_len(arguments), 8);
                    match arguments {
                        ExpressionList::Cons(first, _) => assert_eq!(**first, c32(7)),
                        ExpressionList::Empty => panic!("no arguments"),
                    }
                }
                other => panic!("unexpected {:?}", other),
            }
        }
        other => panic!("unexpected {:?}", other),
    }
    assert_eq!(
        out[2],
        set(
            1,
            Expression::TupleExtract { tuple: Box::new(get(SVC_RETURN_SCRATCH_LOCAL)), index: 1 }
        )
    );
}

#[test]
fn lowers_returns_and_branches() {
    let out = lower(Instruction::Return { target: Register::X30 }, 0);
    assert_eq!(out.len(), 1);
    match &out[0] {
        Expression::Return(tuple) => match tuple.as_ref() {
            Expression::Tuple(values) => assert_eq!(list_len(values), 9),
            other => panic!("unexpected {:?}", other),
        },
        other => panic!("unexpected {:?}", other),
    }
    assert!(!is_lowerable(&Instruction::Return { target: Register::X1 }));
    let branch = Instruction::BranchConditionally { condition: Condition::EQ, target: 2 };
    assert!(lower(branch, 0).is_empty());
    assert_eq!(lower(Instruction::Nop, 0), vec![Expression::Nop]);
    assert_eq!(lower(Instruction::PrefetchMemory, 0), vec![Expression::Nop]);
}

#[test]
fn branch_conditions() {
    let eq = ArmInstruction(Instruction::BranchConditionally { condition: Condition::EQ, target: 2 });
    assert_eq!(eq.branch_condition(), Some(get(34)));
    let ne = ArmInstruction(Instruction::BranchConditionally { condition: Condition::NE, target: 2 });
    assert_eq!(ne.branch_condition(), Some(un(UnaryOp::EqZInt32, get(34))));
    // GT: Z clear and N equal to V (Z in local 34, N in 33, V in 35)
    let gt = ArmInstruction(Instruction::BranchConditionally { condition: Condition::GT, target: 2 });
    assert_eq!(
        gt.branch_condition(),
        Some(bin(
            BinaryOp::AndInt32,
            un(UnaryOp::EqZInt32, get(34)),
            bin(BinaryOp::EqInt32, get(33), get(35)),
        ))
    );
    let lt = ArmInstruction(Instruction::BranchConditionally { condition: Condition::LT, target: 2 });
    assert_eq!(lt.branch_condition(), Some(bin(BinaryOp::NeInt32, get(33), get(35))));
    let hi = ArmInstruction(Instruction::BranchConditionally { condition: Condition::HI, target: 2 });
    assert_eq!(hi.branch_condition(), Some(c32(1)));
    let cbz = ArmInstruction(Instruction::CompareAndBranch {
        branch_if_zero: true,
        register: Register::X3,
        target: 2,
        variant: SizeVariant::Reg64,
    });
    assert_eq!(cbz.branch_condition(), Some(bin(BinaryOp::EqInt64, get(3), c64(0))));
    let tbnz = ArmInstruction(Instruction::TestBitAndBranch {
        branch_if_zero: false,
        register: Register::X3,
        target: 2,
        test_bit: 5,
        variant: SizeVariant::Reg32,
    });
    assert_eq!(
        tbnz.branch_condition(),
        Some(bin(
            BinaryOp::NeInt32,
            bin(BinaryOp::ShrUInt32, un(UnaryOp::WrapInt64, get(3)), c32(5)),
            c32(1)
        ))
    );
    let b = ArmInstruction(Instruction::UnconditionalBranch {
        link: false,
        target: BranchTarget::RelativeInstructionOffset(2),
    });
    assert_eq!(b.branch_condition(), None);
}

#[test]
fn lowers_blocks_and_routines() {
    // sub sp, sp, #16; b.eq +2; nop; ret
    let instructions = vec![
        ArmInstruction(Instruction::AddSubtract {
            destination: Register::SP,
            op: AddSubtractOp::Subtract,
            set_flags: false,
            operand1: Register::SP,
            operand2: AddSubtractRightOperand::Immediate(16),
            variant: SizeVariant::Reg64,
        }),
        ArmInstruction(Instruction::BranchConditionally { condition: Condition::EQ, target: 2 }),
        ArmInstruction(Instruction::Nop),
        ArmInstruction(Instruction::Return { target: Register::X30 }),
    ];
    let segments = vec![CodeSegment { address: 0x1000, instructions, source_offset: 0, size: 16 }];
    let symbols = vec![FunctionSymbol { address: 0x1000, name: "main".to_string() }];
    let analysis = analyze_program(0x1000, &symbols, &segments, 31).unwrap();
    let ctx = arm_routine_context(routine_addresses(&analysis));
    let routine = &analysis.routines[0];
    assert!(is_routine_lowerable(routine));
    let translation = translate_routine(routine, &ctx);
    assert_eq!(translation.blocks.len(), 3);
    assert_eq!(
        translation.blocks[0],
        vec![set(8, bin(BinaryOp::SubInt64, get(8), c64(16)))]
    );
    assert_eq!(translation.blocks[1], vec![Expression::Nop]);
    assert_eq!(translation.blocks[2].len(), 2);
    assert_eq!(translation.blocks[2][1], Expression::Unreachable);
    assert_eq!(
        translation.branches,
        vec![
            BlockBranch { from: 0, to: 1, condition: None },
            BlockBranch { from: 0, to: 2, condition: Some(c32(1)) },
            BlockBranch { from: 1, to: 2, condition: None },
        ]
    );
    let block = Block {
        fallthrough_block_index: Some(1),
        instructions: vec![ArmInstruction(Instruction::Nop)],
        jump_block_index: None,
        start_address: 0,
        tail_call_routine_index: None,
    };
    assert_eq!(translate_block(&block, &ctx), vec![Expression::Nop]);
}

#[test]
fn translate_instruction_lowers_the_basic_instructions() {
    let ctx = context();
    let mut out = vec![Expression::Unreachable];
    ctx.translate_instruction(0x1000, &Instruction::Nop, &mut out);
    assert_eq!(out, vec![Expression::Unreachable, Expression::Nop]);

    let add = Instruction::AddSubtract {
        destination: Register::X0,
        op: AddSubtractOp::Add,
        set_flags: false,
        operand1: Register::X1,
        operand2: AddSubtractRightOperand::Immediate(3),
        variant: SizeVariant::Reg64,
    };
    let mut out = Vec::new();
    ctx.translate_instruction(0x1000, &add, &mut out);
    assert_eq!(out, lower(add, 0x1000));

    // branches, and the instructions beyond the basic ones, become no-ops
    let branch = Instruction::BranchConditionally { condition: Condition::EQ, target: 2 };
    let mut out = Vec::new();
    ctx.translate_instruction(0x1000, &branch, &mut out);
    assert_eq!(out, vec![Expression::Nop]);
    assert_eq!(lower(branch, 0x1000), vec![]);
    let move_wide = Instruction::MoveWide {
        destination: Register::X2,
        keep_shift: None,
        source: Register::XZR,
        value: 7,
        variant: SizeVariant::Reg64,
    };
    let mut out = Vec::new();
    ctx.translate_instruction(0x1000, &move_wide, &mut out);
    assert_eq!(out, vec![Expression::Nop]);
}

#[test]
fn return_reads_the_return_registers() {
    let ctx = context();
    let expression = ctx.return_();
    assert_eq!(lower(Instruction::Return { target: Register::X30 }, 0), vec![expression]);
    match ctx.return_() {
        Expression::Return(tuple) => match *tuple {
            Expression::Tuple(values) => {
                assert_eq!(list_len(&values), 9);
                match values {
                    ExpressionList::Cons(first, _) => assert_eq!(*first, get(0)),
                    ExpressionList::Empty => panic!("no values"),
                }
            }
            other => panic!("unexpected {:?}", other),
        },
        other => panic!("unexpected {:?}", other),
    }
}
