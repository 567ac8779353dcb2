use arm_to_wasm::aw_core::architecture::LocalType;
use arm_to_wasm::riscv::arch::{InstructionSpan, RiscV, SP, SYSCALL_NUMBER_REGISTER, ZERO};
use arm_to_wasm::module::expression::{BinaryOp, CallTarget, Expression, Literal};
use arm_to_wasm::module::memory::{LoadVariant, StoreVariant};
use arm_to_wasm::riscv::instruction::{
    expand_compressed, register_to_local_index, riscv_routine_context, BaseOpcode,
    CompressedOpcode, Opcode, RiscVBranchKind, RiscVInstruction, RiscVInstructionMetadata,
};

#[test]
fn splits_mixed_instruction_streams() {
    // addi sp, sp, -16 (32-bit), c.nop (16-bit), ret as c.jr ra (16-bit), then a stray byte
    let bytes = [0x13, 0x01, 0x01, 0xff, 0x01, 0x00, 0x82, 0x80, 0x13];
    assert_eq!(
        RiscV.instruction_spans(&bytes),
        vec![
            InstructionSpan { offset: 0, compressed: false },
            InstructionSpan { offset: 4, compressed: true },
            InstructionSpan { offset: 6, compressed: true },
        ]
    );
    assert!(RiscV.instruction_spans(&[]).is_empty());
}

#[test]
fn riscv_registers() {
    let riscv = RiscV;
    assert_eq!(riscv.instruction_size(), 2);
    assert_eq!(riscv.param_registers(), vec![10, 11, 12, 13, 14, 15, 16, 17, 2]);
    assert_eq!(riscv.svc_param_registers(), vec![SYSCALL_NUMBER_REGISTER, 10, 11, 12, 13, 14, 15]);
    assert_eq!(riscv.svc_return_registers(), vec![10, 11]);
    assert_eq!(riscv.stack_pointer_register(), SP);
    assert!(riscv.is_zero_register(ZERO));
    assert!(!riscv.is_zero_register(1));
}

#[test]
fn riscv_locals() {
    let locals = RiscV.locals();
    assert_eq!(locals.len(), 31);
    // x1 (ra) and x2 (sp) are passed in and out, x3 is not
    assert!(locals[0].argument && locals[0].return_value);
    assert!(locals[1].argument);
    assert!(!locals[2].argument && !locals[2].return_value);
    // x10 .. x17
    assert!(locals[9].argument && locals[16].return_value);
    assert!(!locals[17].argument);
    assert!(matches!(locals[30].type_, LocalType::I64));
}

#[test]
fn riscv_register_locals() {
    assert_eq!(register_to_local_index(1), 0);
    assert_eq!(register_to_local_index(31), 30);
}

#[test]
fn detects_truncated_instructions() {
    assert!(RiscV.spans_complete(&[0x13, 0x01, 0x01, 0xff, 0x01, 0x00]));
    assert!(RiscV.spans_complete(&[0x01, 0x00, 0x13]));
    assert!(!RiscV.spans_complete(&[0x01, 0x00, 0x13, 0x01, 0x01]));
    assert!(RiscV.spans_complete(&[]));
}

fn instruction(
    opc: Opcode,
    rd: Option<usize>,
    rs1: Option<usize>,
    rs2: Option<usize>,
    imm: Option<i32>,
    is_compressed: bool,
) -> RiscVInstruction {
    RiscVInstruction { opc, rd, rs1, rs2, imm, is_compressed }
}

fn get(index: u32) -> Expression {
    Expression::LocalGet { index }
}

fn c64(value: u64) -> Expression {
    Expression::Const(Literal::I64(value))
}

fn add(left: Expression, right: Expression) -> Expression {
    Expression::Binary { op: BinaryOp::AddInt64, left: Box::new(left), right: Box::new(right) }
}

fn lower(instruction: &RiscVInstruction, call: Option<usize>, address: u64) -> Vec<Expression> {
    let ctx = riscv_routine_context(vec![0x1000, 0x2000]);
    let mut out = Vec::new();
    instruction.translate(&ctx, &RiscVInstructionMetadata { call_routine_index: call }, address, &mut out);
    out
}

#[test]
fn expands_compressed_instructions() {
    let mv = instruction(Opcode::C(CompressedOpcode::MV), Some(10), None, Some(11), None, true);
    assert_eq!(
        expand_compressed(&mv),
        Some(instruction(Opcode::BaseI(BaseOpcode::ADD), Some(10), Some(0), Some(11), None, false))
    );
    let addi16sp = instruction(Opcode::C(CompressedOpcode::ADDI16SP), None, None, None, Some(-32), true);
    assert_eq!(
        expand_compressed(&addi16sp),
        Some(instruction(Opcode::BaseI(BaseOpcode::ADDI), Some(2), Some(2), None, Some(-32), false))
    );
    let jr = instruction(Opcode::C(CompressedOpcode::JR), None, Some(1), None, None, true);
    assert_eq!(
        expand_compressed(&jr),
        Some(instruction(Opcode::BaseI(BaseOpcode::JALR), Some(0), Some(1), None, Some(0), false))
    );
    let base = instruction(Opcode::BaseI(BaseOpcode::ADD), Some(1), Some(2), Some(3), None, false);
    assert_eq!(expand_compressed(&base), None);
    assert_eq!(jr.size(), 2);
    assert_eq!(base.size(), 4);
}

#[test]
fn riscv_branch_kinds() {
    let routines = [0x1000u64, 0x2000];
    let beq = instruction(Opcode::BaseI(BaseOpcode::BEQ), None, Some(5), Some(6), Some(-8), false);
    assert!(beq.is_branch_analysable(0x1010, None, &routines));
    assert_eq!(
        beq.branch_kind(0x1010, None, &routines),
        (
            RiscVBranchKind::Jump { conditional: true, target_address: 0x1008 },
            RiscVInstructionMetadata { call_routine_index: None }
        )
    );
    let call = instruction(Opcode::BaseI(BaseOpcode::JAL), Some(1), None, None, Some(0x1000), false);
    assert_eq!(
        call.branch_kind(0x1000, None, &routines),
        (
            RiscVBranchKind::Call { target_address: 0x2000 },
            RiscVInstructionMetadata { call_routine_index: Some(1) }
        )
    );
    let unresolved = instruction(Opcode::BaseI(BaseOpcode::JAL), Some(1), None, None, Some(8), false);
    assert!(!unresolved.is_branch_analysable(0x1000, None, &routines));
    let jump = instruction(Opcode::C(CompressedOpcode::J), None, None, None, Some(6), true);
    assert_eq!(
        jump.branch_kind(0x1000, None, &routines).0,
        RiscVBranchKind::Jump { conditional: false, target_address: 0x1006 }
    );
    let ret = instruction(Opcode::C(CompressedOpcode::JR), None, Some(1), None, None, true);
    assert_eq!(ret.branch_kind(0x1000, None, &routines).0, RiscVBranchKind::Return);
    // auipc t1, 0x1; jalr ra, -4(t1)
    let auipc = instruction(Opcode::BaseI(BaseOpcode::AUIPC), Some(6), None, None, Some(0x1000), false);
    let jalr = instruction(Opcode::BaseI(BaseOpcode::JALR), Some(1), Some(6), None, Some(0x1000), false);
    assert_eq!(
        jalr.branch_kind(0x1004, Some(&auipc), &routines),
        (
            RiscVBranchKind::Call { target_address: 0x2000 },
            RiscVInstructionMetadata { call_routine_index: Some(1) }
        )
    );
    let odd = instruction(Opcode::BaseI(BaseOpcode::JALR), Some(5), Some(6), None, Some(0), false);
    assert_eq!(odd.branch_kind(0x1000, None, &routines).0, RiscVBranchKind::Unknown);
    let plain = instruction(Opcode::Other, None, None, None, None, false);
    assert_eq!(plain.branch_kind(0x1000, None, &routines).0, RiscVBranchKind::NoBranch);
}

#[test]
fn riscv_lowering() {
    let addi = instruction(Opcode::C(CompressedOpcode::ADDI16SP), None, None, None, Some(-32), true);
    assert!(addi.is_lowerable());
    assert_eq!(
        lower(&addi, None, 0x1000),
        vec![Expression::LocalSet { index: 1, value: Box::new(add(get(1), c64((-32i64) as u64))) }]
    );
    let ld = instruction(Opcode::BaseI(BaseOpcode::LD), Some(10), Some(2), None, Some(8), false);
    assert_eq!(
        lower(&ld, None, 0),
        vec![Expression::LocalSet {
            index: 9,
            value: Box::new(Expression::Load {
                variant: LoadVariant::I64,
                address: Box::new(add(get(1), c64(8))),
                offset: 0,
                align: 4,
            }),
        }]
    );
    let sw = instruction(Opcode::BaseI(BaseOpcode::SW), None, Some(2), Some(0), Some(4), false);
    assert_eq!(
        lower(&sw, None, 0),
        vec![Expression::Store {
            variant: StoreVariant::I64L32,
            value: Box::new(c64(0)),
            address: Box::new(add(get(1), c64(4))),
            offset: 0,
            align: 4,
        }]
    );
    let write_zero = instruction(Opcode::BaseI(BaseOpcode::ADD), Some(0), Some(1), Some(2), None, false);
    assert_eq!(lower(&write_zero, None, 0), vec![Expression::Nop]);
    let auipc = instruction(Opcode::BaseI(BaseOpcode::AUIPC), Some(5), None, None, Some(0x1000), false);
    assert_eq!(
        lower(&auipc, None, 0x400),
        vec![Expression::LocalSet { index: 4, value: Box::new(add(c64(0x400), c64(0x1000))) }]
    );
    let ecall = instruction(Opcode::BaseI(BaseOpcode::ECALL), None, None, None, None, false);
    match &lower(&ecall, None, 0)[0] {
        Expression::LocalSet { index: 9, value } => {
            assert!(matches!(
                value.as_ref(),
                Expression::Call { target: CallTarget::EnvironmentCall, .. }
            ));
        }
        other => panic!("unexpected {:?}", other),
    }
    let ret = instruction(Opcode::C(CompressedOpcode::JR), None, Some(1), None, None, true);
    assert!(matches!(lower(&ret, None, 0)[0], Expression::Return(_)));
    let call = instruction(Opcode::BaseI(BaseOpcode::JAL), Some(1), None, None, Some(8), false);
    let lowered = lower(&call, Some(1), 0);
    assert_eq!(lowered.len(), 11);
    assert!(matches!(
        &lowered[0],
        Expression::LocalSet { index: 31, .. }
    ));
    let other = instruction(Opcode::Other, None, None, None, None, false);
    assert!(lower(&other, None, 0).is_empty());
    let missing = instruction(Opcode::BaseI(BaseOpcode::ADDI), Some(1), None, None, Some(1), false);
    assert!(!missing.is_lowerable());
}

#[test]
fn riscv_branch_conditions() {
    let blt = instruction(Opcode::BaseI(BaseOpcode::BLT), None, Some(5), Some(6), Some(8), false);
    assert_eq!(
        blt.branch_condition(),
        Some(Expression::Binary {
            op: BinaryOp::LtSInt64,
            left: Box::new(get(4)),
            right: Box::new(get(5)),
        })
    );
    let beq = instruction(Opcode::BaseI(BaseOpcode::BEQ), None, Some(5), Some(6), Some(8), false);
    assert_eq!(beq.branch_condition(), None);
}

#[test]
fn decodes_instructions_with_raki() {
    // addi a0, a0, 1; c.nop
    let bytes = [0x13, 0x05, 0x15, 0x00, 0x01, 0x00];
    let instructions = RiscV.decode_instructions(&bytes).unwrap();
    assert_eq!(instructions.len(), 2);
    assert_eq!(instructions[0].opc, Opcode::BaseI(BaseOpcode::ADDI));
    assert_eq!(instructions[0].rd, Some(10));
    assert_eq!(instructions[0].rs1, Some(10));
    assert_eq!(instructions[0].imm, Some(1));
    assert!(!instructions[0].is_compressed);
    assert_eq!(instructions[1].opc, Opcode::C(CompressedOpcode::NOP));
    assert!(instructions[1].is_compressed);
    // an all-ones word belongs to no extension raki knows
    assert_eq!(RiscV.decode_instructions(&[0xff, 0xff, 0xff, 0xff]), None);
}

#[test]
fn riscv_function_types() {
    use_function_types();
}

fn use_function_types() {
    let types = arm_to_wasm::aw_core::translator::function_types(&RiscV.locals(), 2);
    // x1, x2 and x10..x17 are parameters and results; the other 21 registers are locals
    assert_eq!(types.params.len(), 10);
    assert_eq!(types.results.len(), 10);
    assert_eq!(types.locals.len(), 21 + 3);
    assert_eq!(
        types.locals[21],
        arm_to_wasm::aw_core::translator::LocalSlot::Single(arm_to_wasm::module::memory::ValueType::I32)
    );
    assert_eq!(
        types.locals[23],
        arm_to_wasm::aw_core::translator::LocalSlot::Tuple(vec![
            arm_to_wasm::module::memory::ValueType::I64,
            arm_to_wasm::module::memory::ValueType::I64
        ])
    );
}
