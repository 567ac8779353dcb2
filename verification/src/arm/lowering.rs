//! Lowering of decoded AArch64 instructions to WebAssembly expressions.
//!
//! Every general purpose register, the stack pointer, the flags and the SIMD
//! registers live in function locals; the zero register reads as zero and ignores
//! writes. The locals are numbered as `register_local` says.

use vstd::prelude::*;
use crate::arm_decoder::instructions::{
    AddSubtractOp, AddSubtractRightOperand, BranchTarget, Instruction, LoadStoreOffset,
    LoadStoreOp, LogicalOp,
};
use crate::arm_decoder::structures::{
    Condition, Extension, Register, Shift, SizeVariant, SliceSize, WritebackOffset,
};
use crate::arm::arch::ids;
use crate::arm::registers::{
    id, register_id, svc_param_registers, svc_return_registers, default_param_registers,
};
use crate::arm::translation::{
    ArmInstruction, branch_kind_of, jump_target, shift_op, resolve_shift_op, width, width_of,
};
use crate::aw_core::architecture::BranchKind;
use crate::aw_core::analysis::{Analysis, Block, Routine, find_address, index_of};
use crate::aw_core::architecture::Width;
use crate::aw_core::translator::RoutineContext;
use crate::aw_core::instruction_helper::registers_written_by;
use crate::module::expression::{
    BinaryOp, CallTarget, Expression, Literal, UnaryOp, expression_list, list_of,
};
use crate::module::memory::{LoadVariant, StoreVariant};
use crate::module::eval::{run, wrap32, wrap64, two_32};

verus! {

/// The identifier of the zero register.
pub const ZERO_REGISTER_ID: u32 = 32;

/// The identifiers of the flags: carry, negative, zero and overflow.
pub const CARRY_FLAG_ID: u32 = 34;

pub const NEGATIVE_FLAG_ID: u32 = 35;

pub const ZERO_FLAG_ID: u32 = 36;

pub const OVERFLOW_FLAG_ID: u32 = 37;

/// The local the structured control flow of a routine uses to select blocks.
pub const RELOOPER_HELPER_LOCAL: u32 = 36;

/// The local that receives the results of a call to a routine.
pub const FUNC_RETURN_SCRATCH_LOCAL: u32 = 37;

/// The local that receives the results of a supervisor call.
pub const SVC_RETURN_SCRATCH_LOCAL: u32 = 38;

/// The number of locals of a translated routine.
pub const LOCAL_COUNT: u32 = 71;

/// Whether `register` identifies a flag.
pub open spec fn is_flag_id(register: u32) -> bool {
    CARRY_FLAG_ID <= register <= OVERFLOW_FLAG_ID
}

/// The local that holds the register identified by `register`: the argument registers
/// `X0`..`X7` and `SP` come first, as the routine's parameters (0 to 8), then `X8`..`X30`
/// (9 to 31), the flags (32 to 35), and the SIMD registers (39 to 70); locals 36 to 38
/// are the block selector and the two call result locals.
pub open spec fn register_local(register: u32) -> u32 {
    if register < 8 {
        register
    } else if register == 31 {
        8
    } else if register < 31 {
        (register + 1) as u32
    } else if is_flag_id(register) {
        (register - 2) as u32
    } else {
        (register + 1) as u32
    }
}

/// The local that holds the register identified by `register`.
pub fn local_index(register: u32) -> (r: u32)
    requires
        register < 70,
    ensures
        r == register_local(register),
{
    if register < 8 {
        register
    } else if register == 31 {
        8
    } else if register < 31 {
        register + 1
    } else if CARRY_FLAG_ID <= register && register <= OVERFLOW_FLAG_ID {
        register - 2
    } else {
        register + 1
    }
}

/// `Unary { op, operand }`.
pub open spec fn un(op: UnaryOp, operand: Expression) -> Expression {
    Expression::Unary { op, operand: Box::new(operand) }
}

/// `Binary { op, left, right }`.
pub open spec fn bin(op: BinaryOp, left: Expression, right: Expression) -> Expression {
    Expression::Binary { op, left: Box::new(left), right: Box::new(right) }
}

/// A 32-bit constant.
pub open spec fn c32(value: u32) -> Expression {
    Expression::Const(Literal::I32(value))
}

/// A 64-bit constant.
pub open spec fn c64(value: u64) -> Expression {
    Expression::Const(Literal::I64(value))
}

/// Reading the register identified by `register` at `width`: zero for the zero
/// register; otherwise its local, wrapped to 32 bits or zero-extended to 64 bits where
/// the local's width (32 bits for a flag, 64 otherwise) differs.
pub open spec fn register_read(register: u32, width: Width) -> Expression {
    if register == ZERO_REGISTER_ID {
        match width {
            Width::W32 => c32(0),
            Width::W64 => c64(0),
        }
    } else {
        let get = Expression::LocalGet { index: register_local(register) };
        if is_flag_id(register) && width == Width::W64 {
            un(UnaryOp::ExtendUInt32, get)
        } else if !is_flag_id(register) && width == Width::W32 {
            un(UnaryOp::WrapInt64, get)
        } else {
            get
        }
    }
}

/// Writing `value`, of `width`, to the register identified by `register`: nothing for
/// the zero register; otherwise a write of its local, the value zero-extended to 64
/// bits or wrapped to 32 bits where the local's width differs.
pub open spec fn register_write(register: u32, width: Width, value: Expression) -> Expression {
    if register == ZERO_REGISTER_ID {
        Expression::Nop
    } else {
        let stored = if is_flag_id(register) && width == Width::W64 {
            un(UnaryOp::WrapInt64, value)
        } else if !is_flag_id(register) && width == Width::W32 {
            un(UnaryOp::ExtendUInt32, value)
        } else {
            value
        };
        Expression::LocalSet { index: register_local(register), value: Box::new(stored) }
    }
}

/// The constant `value` at the width of `variant`: its low 32 bits or all 64.
pub open spec fn unsigned_const(variant: SizeVariant, value: u64) -> Expression {
    match variant {
        SizeVariant::Reg32 => c32(value as u32),
        SizeVariant::Reg64 => c64(value),
    }
}

/// `operand` shifted by `amount` (left as it is for zero).
pub open spec fn shifted(operand: Expression, amount: u64, shift_type: Shift, variant: SizeVariant) -> Expression {
    if amount == 0 {
        operand
    } else {
        bin(shift_op(shift_type, variant), operand, unsigned_const(variant, amount))
    }
}

/// The 64-bit register `register` zero or sign extended from its low slice, shifted left
/// by `left_shift` and wrapped to the width of `variant`.
pub open spec fn extended(register: u32, extension: Extension, left_shift: u64, variant: SizeVariant) -> Expression {
    let wide = register_read(register, Width::W64);
    let value = match (extension.size, extension.signed) {
        (SliceSize::Byte, false) => bin(BinaryOp::AndInt64, wide, c64(0xff)),
        (SliceSize::Byte, true) => bin(
            BinaryOp::ShrSInt64,
            bin(BinaryOp::ShlInt64, bin(BinaryOp::AndInt64, wide, c64(0xff)), c64(56)),
            c64(56),
        ),
        (SliceSize::Halfword, false) => bin(BinaryOp::AndInt64, wide, c64(0xffff)),
        (SliceSize::Halfword, true) => bin(
            BinaryOp::ShrSInt64,
            bin(BinaryOp::ShlInt64, bin(BinaryOp::AndInt64, wide, c64(0xffff)), c64(48)),
            c64(48),
        ),
        (SliceSize::Word, false) => bin(BinaryOp::AndInt64, wide, c64(0xffff_ffff)),
        (SliceSize::Word, true) => un(UnaryOp::ExtendSInt32, un(UnaryOp::WrapInt64, wide)),
        (SliceSize::Doubleword, _) => wide,
    };
    let shifted_value = if left_shift == 0 {
        value
    } else {
        bin(BinaryOp::ShlInt64, value, c64(left_shift))
    };
    match variant {
        SizeVariant::Reg32 => un(UnaryOp::WrapInt64, shifted_value),
        SizeVariant::Reg64 => shifted_value,
    }
}

/// The second operand of an add or subtract.
pub open spec fn add_sub_operand2(operand2: AddSubtractRightOperand, variant: SizeVariant) -> Expression {
    match operand2 {
        AddSubtractRightOperand::Immediate(imm) => unsigned_const(variant, imm),
        AddSubtractRightOperand::ShiftedRegister { register, shift_amount, shift_type } => shifted(
            register_read(register_id(register), width_of(variant)),
            shift_amount,
            shift_type,
            variant,
        ),
        AddSubtractRightOperand::ExtendedRegister { extension, left_shift_amount, register } =>
            extended(register_id(register), extension, left_shift_amount, variant),
    }
}

/// The operation of an add or subtract at the width of `variant`.
pub open spec fn add_sub_op(op: AddSubtractOp, variant: SizeVariant) -> BinaryOp {
    match (op, variant) {
        (AddSubtractOp::Add, SizeVariant::Reg32) => BinaryOp::AddInt32,
        (AddSubtractOp::Add, SizeVariant::Reg64) => BinaryOp::AddInt64,
        (AddSubtractOp::Subtract, SizeVariant::Reg32) => BinaryOp::SubInt32,
        (AddSubtractOp::Subtract, SizeVariant::Reg64) => BinaryOp::SubInt64,
    }
}

/// Zero at the width of `variant`.
pub open spec fn zero_of(variant: SizeVariant) -> Expression {
    match variant {
        SizeVariant::Reg32 => c32(0),
        SizeVariant::Reg64 => c64(0),
    }
}

/// Whether `value`, of the width of `variant`, is negative: 1 or 0.
pub open spec fn sign_of(value: Expression, variant: SizeVariant) -> Expression {
    match variant {
        SizeVariant::Reg32 => bin(BinaryOp::LtSInt32, value, c32(0)),
        SizeVariant::Reg64 => bin(BinaryOp::LtSInt64, value, c64(0)),
    }
}

/// Whether `value`, of the width of `variant`, is zero: 1 or 0.
pub open spec fn is_zero_of(value: Expression, variant: SizeVariant) -> Expression {
    match variant {
        SizeVariant::Reg32 => bin(BinaryOp::EqInt32, value, c32(0)),
        SizeVariant::Reg64 => bin(BinaryOp::EqInt64, value, c64(0)),
    }
}

/// The flag updates of an add or subtract whose operands are `op1` and `op2` and whose
/// result is `result`: negative, zero, carry (no unsigned overflow of an add, no borrow
/// of a subtract) and overflow (signed).
pub open spec fn add_sub_flags(
    op: AddSubtractOp,
    variant: SizeVariant,
    op1: Expression,
    op2: Expression,
    result: Expression,
) -> Seq<Expression> {
    let carry = match (op, variant) {
        (AddSubtractOp::Add, SizeVariant::Reg32) => bin(BinaryOp::LtUInt32, result, op1),
        (AddSubtractOp::Add, SizeVariant::Reg64) => bin(BinaryOp::LtUInt64, result, op1),
        (AddSubtractOp::Subtract, SizeVariant::Reg32) => bin(BinaryOp::GeUInt32, op1, op2),
        (AddSubtractOp::Subtract, SizeVariant::Reg64) => bin(BinaryOp::GeUInt64, op1, op2),
    };
    let signs_differ = bin(BinaryOp::XorInt32, sign_of(op1, variant), sign_of(op2, variant));
    let result_sign_differs = bin(
        BinaryOp::XorInt32,
        sign_of(op1, variant),
        sign_of(result, variant),
    );
    let overflow = match op {
        AddSubtractOp::Add => bin(
            BinaryOp::AndInt32,
            un(UnaryOp::EqZInt32, signs_differ),
            result_sign_differs,
        ),
        AddSubtractOp::Subtract => bin(BinaryOp::AndInt32, signs_differ, result_sign_differs),
    };
    seq![
        register_write(NEGATIVE_FLAG_ID, Width::W32, sign_of(result, variant)),
        register_write(ZERO_FLAG_ID, Width::W32, is_zero_of(result, variant)),
        register_write(CARRY_FLAG_ID, Width::W32, carry),
        register_write(OVERFLOW_FLAG_ID, Width::W32, overflow),
    ]
}

/// ADD, ADDS, SUB, SUBS: the destination gets the result, zero-extended to 64 bits;
/// the flags follow where they are set.
pub open spec fn add_sub_lowering(
    destination: Register,
    op: AddSubtractOp,
    set_flags: bool,
    operand1: Register,
    operand2: AddSubtractRightOperand,
    variant: SizeVariant,
) -> Seq<Expression> {
    let op1 = register_read(register_id(operand1), width_of(variant));
    let op2 = add_sub_operand2(operand2, variant);
    let result = bin(add_sub_op(op, variant), op1, op2);
    let stored = match variant {
        SizeVariant::Reg32 => un(UnaryOp::ExtendUInt32, result),
        SizeVariant::Reg64 => result,
    };
    seq![register_write(register_id(destination), Width::W64, stored)] + if set_flags {
        add_sub_flags(op, variant, op1, op2, result)
    } else {
        Seq::empty()
    }
}

/// The address ADR (or, aligned to its 4 KiB page, ADRP) at `address` forms.
pub open spec fn pc_relative_target(address: u64, aligned_to_page: bool, value: i64) -> u64 {
    vstd::wrapping::u64_specs::wrapping_add_signed(
        if aligned_to_page {
            address & !0xfffu64
        } else {
            address
        },
        value,
    )
}

/// The memory operation of a load of `size` bytes.
pub open spec fn load_variant_of(op: LoadStoreOp, size: SliceSize) -> LoadVariant {
    match (op, size) {
        (_, SliceSize::Doubleword) => LoadVariant::I64,
        (LoadStoreOp::LoadSignExtend { variant: SizeVariant::Reg64 }, SliceSize::Byte) =>
            LoadVariant::I64L8 { signed: true },
        (LoadStoreOp::LoadSignExtend { variant: SizeVariant::Reg64 }, SliceSize::Halfword) =>
            LoadVariant::I64L16 { signed: true },
        (LoadStoreOp::LoadSignExtend { variant: SizeVariant::Reg64 }, SliceSize::Word) =>
            LoadVariant::I64L32 { signed: true },
        (LoadStoreOp::LoadSignExtend { variant: SizeVariant::Reg32 }, SliceSize::Byte) =>
            LoadVariant::I32L8 { signed: true },
        (LoadStoreOp::LoadSignExtend { variant: SizeVariant::Reg32 }, SliceSize::Halfword) =>
            LoadVariant::I32L16 { signed: true },
        (_, SliceSize::Byte) => LoadVariant::I32L8 { signed: false },
        (_, SliceSize::Halfword) => LoadVariant::I32L16 { signed: false },
        (_, SliceSize::Word) => LoadVariant::I32,
    }
}

/// The width at which a load of `size` bytes writes its register.
pub open spec fn load_width_of(op: LoadStoreOp, size: SliceSize) -> Width {
    match (op, size) {
        (_, SliceSize::Doubleword) => Width::W64,
        (LoadStoreOp::LoadSignExtend { variant }, _) => width_of(variant),
        _ => Width::W32,
    }
}

/// The memory operation of a store of `size` bytes.
pub open spec fn store_variant_of(size: SliceSize) -> StoreVariant {
    match size {
        SliceSize::Byte => StoreVariant::I32L8,
        SliceSize::Halfword => StoreVariant::I32L16,
        SliceSize::Word => StoreVariant::I32,
        SliceSize::Doubleword => StoreVariant::I64,
    }
}

/// The width at which a store of `size` bytes reads its register.
pub open spec fn store_width_of(size: SliceSize) -> Width {
    match size {
        SliceSize::Doubleword => Width::W64,
        _ => Width::W32,
    }
}

/// The address expression and the constant offset of a register load or store: a
/// negative immediate is added to the base register, a non-negative one is the
/// access's offset, and an index register, extended from 32 bits where the extension
/// says so, is shifted and added to the base.
pub open spec fn access_address(address: Register, offset: LoadStoreOffset) -> (Expression, u32) {
    let base = register_read(register_id(address), Width::W64);
    match offset {
        LoadStoreOffset::Immediate { offset } => if offset.access < 0 {
            (bin(BinaryOp::AddInt64, base, c64(offset.access as i64 as u64)), 0)
        } else {
            (base, offset.access as u32)
        },
        LoadStoreOffset::Register { extension, register, shift_amount } => {
            let index = if extension.size == SliceSize::Word {
                un(
                    if extension.signed {
                        UnaryOp::ExtendSInt32
                    } else {
                        UnaryOp::ExtendUInt32
                    },
                    register_read(register_id(register), Width::W32),
                )
            } else {
                register_read(register_id(register), Width::W64)
            };
            (bin(BinaryOp::AddInt64, base, bin(BinaryOp::ShlInt64, index, c64(shift_amount))), 0)
        },
    }
}

/// A register load or store, then the write back of the base register where the
/// addressing mode asks for it.
pub open spec fn load_store_lowering(
    address: Register,
    offset: LoadStoreOffset,
    op: LoadStoreOp,
    size: SliceSize,
    value: Register,
) -> Seq<Expression> {
    let (address_expr, access_offset) = access_address(address, offset);
    let access = match op {
        LoadStoreOp::Store => Expression::Store {
            variant: store_variant_of(size),
            value: Box::new(register_read(register_id(value), store_width_of(size))),
            address: Box::new(address_expr),
            offset: access_offset,
            align: 1,
        },
        _ => register_write(
            register_id(value),
            load_width_of(op, size),
            Expression::Load {
                variant: load_variant_of(op, size),
                address: Box::new(address_expr),
                offset: access_offset,
                align: 1,
            },
        ),
    };
    seq![access] + match offset {
        LoadStoreOffset::Immediate { offset: WritebackOffset { writeback: Some(writeback), .. } } =>
            seq![
                register_write(
                    register_id(address),
                    Width::W64,
                    bin(
                        BinaryOp::AddInt64,
                        register_read(register_id(address), Width::W64),
                        c64(writeback as i64 as u64),
                    ),
                ),
            ],
        _ => Seq::empty(),
    }
}

/// The operation of a logical instruction at the width of `variant`, and whether it
/// sets the flags.
pub open spec fn logical_op_of(op: LogicalOp, variant: SizeVariant) -> (BinaryOp, bool) {
    match (op, variant) {
        (LogicalOp::And { set_flags }, SizeVariant::Reg32) => (BinaryOp::AndInt32, set_flags),
        (LogicalOp::And { set_flags }, SizeVariant::Reg64) => (BinaryOp::AndInt64, set_flags),
        (LogicalOp::Or, SizeVariant::Reg32) => (BinaryOp::OrInt32, false),
        (LogicalOp::Or, SizeVariant::Reg64) => (BinaryOp::OrInt64, false),
        (LogicalOp::Xor, SizeVariant::Reg32) => (BinaryOp::XorInt32, false),
        (LogicalOp::Xor, SizeVariant::Reg64) => (BinaryOp::XorInt64, false),
    }
}

/// The second operand of a shifted register logical instruction, inverted where the
/// instruction says so.
pub open spec fn logical_register_operand(
    register: Register,
    inverse: bool,
    shift_amount: u64,
    shift_type: Shift,
    variant: SizeVariant,
) -> Expression {
    let operand = shifted(
        register_read(register_id(register), width_of(variant)),
        shift_amount,
        shift_type,
        variant,
    );
    if inverse {
        match variant {
            SizeVariant::Reg32 => bin(BinaryOp::XorInt32, operand, c32(0xffff_ffff)),
            SizeVariant::Reg64 => bin(BinaryOp::XorInt64, operand, c64(0xffff_ffff_ffff_ffff)),
        }
    } else {
        operand
    }
}

/// AND, ANDS, ORR, EOR (and the inverted forms): the destination gets the result at
/// the width of `variant`; ANDS also sets the negative and zero flags and clears carry
/// and overflow.
pub open spec fn logical_lowering(
    destination: Register,
    op: LogicalOp,
    operand1: Register,
    operand2: Expression,
    variant: SizeVariant,
) -> Seq<Expression> {
    let (binary_op, set_flags) = logical_op_of(op, variant);
    let result = bin(binary_op, register_read(register_id(operand1), width_of(variant)), operand2);
    seq![register_write(register_id(destination), width_of(variant), result)] + if set_flags {
        seq![
            register_write(NEGATIVE_FLAG_ID, Width::W32, sign_of(result, variant)),
            register_write(ZERO_FLAG_ID, Width::W32, is_zero_of(result, variant)),
            register_write(CARRY_FLAG_ID, Width::W32, c32(0)),
            register_write(OVERFLOW_FLAG_ID, Width::W32, c32(0)),
        ]
    } else {
        Seq::empty()
    }
}

/// Whether a kept-bits shift of MOVK fits the width of `variant`.
pub open spec fn keep_shift_fits(keep_shift: Option<u32>, variant: SizeVariant) -> bool {
    match keep_shift {
        Some(shift) => match variant {
            SizeVariant::Reg32 => shift < 32,
            SizeVariant::Reg64 => shift < 64,
        },
        None => true,
    }
}

/// MOVZ, MOVN, MOVK: the destination gets the immediate; MOVK keeps the bits of `source`
/// outside the 16 bits at `shift`.
pub open spec fn move_wide_lowering(
    destination: Register,
    keep_shift: Option<u32>,
    source: Register,
    value: u64,
    variant: SizeVariant,
) -> Seq<Expression> {
    let immediate = unsigned_const(variant, value);
    let result = match keep_shift {
        Some(shift) => match variant {
            SizeVariant::Reg32 => bin(
                BinaryOp::OrInt32,
                immediate,
                bin(
                    BinaryOp::AndInt32,
                    register_read(register_id(source), Width::W32),
                    c32(!(0xffffu32 << shift)),
                ),
            ),
            SizeVariant::Reg64 => bin(
                BinaryOp::OrInt64,
                immediate,
                bin(
                    BinaryOp::AndInt64,
                    register_read(register_id(source), Width::W64),
                    c64(!(0xffffu64 << shift)),
                ),
            ),
        },
        None => immediate,
    };
    seq![register_write(register_id(destination), width_of(variant), result)]
}

/// The reads of `registers` at 64 bits, in order.
pub open spec fn wide_reads(registers: Seq<u32>) -> Seq<Expression> {
    Seq::new(registers.len(), |k: int| register_read(registers[k], Width::W64))
}

/// The writes of the elements of the tuple in local `scratch` to `registers`, in order.
pub open spec fn tuple_writes(registers: Seq<u32>, scratch: u32) -> Seq<Expression> {
    Seq::new(
        registers.len(),
        |k: int|
            register_write(
                registers[k],
                Width::W64,
                Expression::TupleExtract {
                    tuple: Box::new(Expression::LocalGet { index: scratch }),
                    index: k as u32,
                },
            ),
    )
}

/// BL to `target`: a call of the routine that starts there, with the return registers
/// as arguments, whose results go to the return registers; a trap where no routine
/// starts there.
pub open spec fn call_lowering(ctx: RoutineContext, target: u64) -> Seq<Expression> {
    match index_of(ctx.routine_addresses@, target) {
        Some(routine_index) => seq![
            Expression::LocalSet {
                index: ctx.func_return_scratch_local_index,
                value: Box::new(
                    Expression::Call {
                        target: CallTarget::Routine(routine_index),
                        arguments: list_of(wide_reads(ctx.return_registers@)),
                    },
                ),
            },
        ] + tuple_writes(ctx.return_registers@, ctx.func_return_scratch_local_index),
        None => seq![Expression::Unreachable],
    }
}

/// SVC: a call of the host with the immediate and the system call registers, whose
/// results go to the system call result registers.
pub open spec fn supervisor_call_lowering(ctx: RoutineContext, argument: u16) -> Seq<Expression> {
    seq![
        Expression::LocalSet {
            index: ctx.svc_return_scratch_local_index,
            value: Box::new(
                Expression::Call {
                    target: CallTarget::SupervisorCall,
                    arguments: list_of(
                        seq![c32(argument as u32)] + wide_reads(ids(svc_param_registers())),
                    ),
                },
            ),
        },
    ] + tuple_writes(ids(svc_return_registers()), ctx.svc_return_scratch_local_index)
}

/// Whether the lowering is defined on `i`: a return must go through `X30`, and the kept
/// bits of MOVK must fit the register.
pub open spec fn lowerable(i: Instruction) -> bool {
    match i {
        Instruction::Return { target } => target == Register::X30,
        Instruction::MoveWide { keep_shift, variant, .. } => keep_shift_fits(keep_shift, variant),
        _ => true,
    }
}

/// The expressions the instruction `i` at `address` is lowered to. Branches leave
/// nothing, since the structured control flow around the blocks takes them; an
/// instruction without a lowering becomes a no-op.
pub open spec fn lowering(i: Instruction, ctx: RoutineContext, address: u64) -> Seq<Expression> {
    match i {
        Instruction::AddSubtract { destination, op, set_flags, operand1, operand2, variant } =>
            add_sub_lowering(destination, op, set_flags, operand1, operand2, variant),
        Instruction::FormPCRelativeAddress { aligned_to_page, destination, value } => seq![
            register_write(
                register_id(destination),
                Width::W64,
                c64(pc_relative_target(address, aligned_to_page, value)),
            ),
        ],
        Instruction::LoadStoreRegister { address: base, offset, op, size, value } =>
            load_store_lowering(base, offset, op, size, value),
        Instruction::LogicalImmediate { destination, op, operand1, operand2, variant } =>
            logical_lowering(destination, op, operand1, unsigned_const(variant, operand2), variant),
        Instruction::LogicalShiftedRegister {
            destination,
            inverse_operand2,
            op,
            operand1,
            operand2,
            shift_amount,
            shift_type,
            variant,
        } => logical_lowering(
            destination,
            op,
            operand1,
            logical_register_operand(operand2, inverse_operand2, shift_amount, shift_type, variant),
            variant,
        ),
        Instruction::MoveWide { destination, keep_shift, source, value, variant } =>
            move_wide_lowering(destination, keep_shift, source, value, variant),
        Instruction::UnconditionalBranch {
            link: true,
            target: BranchTarget::RelativeInstructionOffset(offset),
        } => call_lowering(ctx, jump_target(address, offset)),
        Instruction::SupervisorCall { argument } => supervisor_call_lowering(ctx, argument),
        Instruction::Nop => seq![Expression::Nop],
        Instruction::Return { .. } => seq![function_return(ctx)],
        Instruction::UnconditionalBranch { .. } => Seq::empty(),
        Instruction::BranchConditionally { .. } => Seq::empty(),
        Instruction::CompareAndBranch { .. } => Seq::empty(),
        Instruction::TestBitAndBranch { .. } => Seq::empty(),
        _ => seq![Expression::Nop],
    }
}

/// The comparison that decides a compare or test branch at the width of `variant`.
pub open spec fn branch_compare_op(branch_if_zero: bool, variant: SizeVariant) -> BinaryOp {
    match (branch_if_zero, variant) {
        (false, SizeVariant::Reg32) => BinaryOp::NeInt32,
        (false, SizeVariant::Reg64) => BinaryOp::NeInt64,
        (true, SizeVariant::Reg32) => BinaryOp::EqInt32,
        (true, SizeVariant::Reg64) => BinaryOp::EqInt64,
    }
}

/// The condition under which a B.cond with `condition` branches: EQ on the zero flag, NE
/// on its negation, LT when negative and overflow differ, GT when the zero flag is clear
/// and the negative and overflow flags agree; any other condition always branches.
pub open spec fn condition_expression(condition: Condition) -> Expression {
    match condition {
        Condition::EQ => register_read(ZERO_FLAG_ID, Width::W32),
        Condition::NE => un(UnaryOp::EqZInt32, register_read(ZERO_FLAG_ID, Width::W32)),
        Condition::LT => bin(
            BinaryOp::NeInt32,
            register_read(NEGATIVE_FLAG_ID, Width::W32),
            register_read(OVERFLOW_FLAG_ID, Width::W32),
        ),
        Condition::GT => bin(
            BinaryOp::AndInt32,
            un(UnaryOp::EqZInt32, register_read(ZERO_FLAG_ID, Width::W32)),
            bin(
                BinaryOp::EqInt32,
                register_read(NEGATIVE_FLAG_ID, Width::W32),
                register_read(OVERFLOW_FLAG_ID, Width::W32),
            ),
        ),
        _ => c32(1),
    }
}

/// Whether `i` is a branch: the instructions that can end a block with a jump.
pub open spec fn is_branch(i: Instruction) -> bool {
    ||| i is UnconditionalBranch
    ||| i is BranchConditionally
    ||| i is CompareAndBranch
    ||| i is TestBitAndBranch
}

/// The condition under which the branch `i` is taken; none for an unconditional branch.
pub open spec fn branch_condition_of(i: Instruction) -> Option<Expression> {
    match i {
        Instruction::BranchConditionally { condition, .. } => Some(condition_expression(condition)),
        Instruction::CompareAndBranch { branch_if_zero, register, variant, .. } => Some(
            bin(
                branch_compare_op(branch_if_zero, variant),
                register_read(register_id(register), width_of(variant)),
                zero_of(variant),
            ),
        ),
        Instruction::TestBitAndBranch { branch_if_zero, register, test_bit, variant, .. } => Some(
            bin(
                branch_compare_op(branch_if_zero, variant),
                bin(
                    match variant {
                        SizeVariant::Reg32 => BinaryOp::ShrUInt32,
                        SizeVariant::Reg64 => BinaryOp::ShrUInt64,
                    },
                    register_read(register_id(register), width_of(variant)),
                    unsigned_const(variant, test_bit as u64),
                ),
                match variant {
                    SizeVariant::Reg32 => c32(1),
                    SizeVariant::Reg64 => c64(1),
                },
            ),
        ),
        _ => None,
    }
}


/// Every register identifier is below 70.
proof fn lemma_id_bound(register: Register)
    ensures
        register_id(register) < 70,
{
}

/// The identifiers of registers are below 70.
proof fn lemma_ids_bound(registers: Seq<Register>)
    ensures
        forall|k: int| 0 <= k < ids(registers).len() ==> #[trigger] ids(registers)[k] < 70,
{
    assert forall|k: int| 0 <= k < ids(registers).len() implies #[trigger] ids(registers)[k] < 70 by {
        lemma_id_bound(registers[k]);
    }
}

/// Whether `ctx` can be used to lower instructions: its return registers are register
/// identifiers and few enough to be numbered by 32-bit tuple indices.
pub open spec fn context_ok(ctx: RoutineContext) -> bool {
    &&& ctx.return_registers.len() <= u32::MAX
    &&& forall|k: int| 0 <= k < ctx.return_registers.len() ==> #[trigger] ctx.return_registers[k] < 70
}

fn unary(op: UnaryOp, operand: Expression) -> (r: Expression)
    ensures
        r == un(op, operand),
{
    Expression::Unary { op, operand: Box::new(operand) }
}

fn binary(op: BinaryOp, left: Expression, right: Expression) -> (r: Expression)
    ensures
        r == bin(op, left, right),
{
    Expression::Binary { op, left: Box::new(left), right: Box::new(right) }
}

fn const32(value: u32) -> (r: Expression)
    ensures
        r == c32(value),
{
    Expression::Const(Literal::I32(value))
}

fn const64(value: u64) -> (r: Expression)
    ensures
        r == c64(value),
{
    Expression::Const(Literal::I64(value))
}

/// Reads the register identified by `register` at `width`.
pub fn read_register(register: u32, width: Width) -> (r: Expression)
    requires
        register < 70,
    ensures
        r == register_read(register, width),
{
    if register == ZERO_REGISTER_ID {
        return match width {
            Width::W32 => const32(0),
            Width::W64 => const64(0),
        };
    }
    let flag = CARRY_FLAG_ID <= register && register <= OVERFLOW_FLAG_ID;
    let get = Expression::LocalGet { index: local_index(register) };
    match width {
        Width::W64 => if flag {
            unary(UnaryOp::ExtendUInt32, get)
        } else {
            get
        },
        Width::W32 => if !flag {
            unary(UnaryOp::WrapInt64, get)
        } else {
            get
        },
    }
}

/// Writes `value`, of `width`, to the register identified by `register`.
pub fn write_register(register: u32, width: Width, value: Expression) -> (r: Expression)
    requires
        register < 70,
    ensures
        r == register_write(register, width, value),
{
    if register == ZERO_REGISTER_ID {
        return Expression::Nop;
    }
    let flag = CARRY_FLAG_ID <= register && register <= OVERFLOW_FLAG_ID;
    let stored = match width {
        Width::W64 => if flag {
            unary(UnaryOp::WrapInt64, value)
        } else {
            value
        },
        Width::W32 => if !flag {
            unary(UnaryOp::ExtendUInt32, value)
        } else {
            value
        },
    };
    Expression::LocalSet { index: local_index(register), value: Box::new(stored) }
}

/// The constant `value` at the width of `variant`.
pub fn variant_unsigned_const(variant: SizeVariant, value: u64) -> (r: Expression)
    ensures
        r == unsigned_const(variant, value),
{
    match variant {
        SizeVariant::Reg32 => const32(value as u32),
        SizeVariant::Reg64 => const64(value),
    }
}

fn shift_operand(operand: Expression, amount: u64, shift_type: Shift, variant: SizeVariant) -> (r: Expression)
    ensures
        r == shifted(operand, amount, shift_type, variant),
{
    if amount == 0 {
        operand
    } else {
        binary(
            resolve_shift_op(shift_type, variant),
            operand,
            variant_unsigned_const(variant, amount),
        )
    }
}

fn extend_operand(register: u32, extension: Extension, left_shift: u64, variant: SizeVariant) -> (r: Expression)
    requires
        register < 70,
    ensures
        r == extended(register, extension, left_shift, variant),
{
    let wide = read_register(register, Width::W64);
    let value = match (extension.size, extension.signed) {
        (SliceSize::Byte, false) => binary(BinaryOp::AndInt64, wide, const64(0xff)),
        (SliceSize::Byte, true) => binary(
            BinaryOp::ShrSInt64,
            binary(BinaryOp::ShlInt64, binary(BinaryOp::AndInt64, wide, const64(0xff)), const64(56)),
            const64(56),
        ),
        (SliceSize::Halfword, false) => binary(BinaryOp::AndInt64, wide, const64(0xffff)),
        (SliceSize::Halfword, true) => binary(
            BinaryOp::ShrSInt64,
            binary(
                BinaryOp::ShlInt64,
                binary(BinaryOp::AndInt64, wide, const64(0xffff)),
                const64(48),
            ),
            const64(48),
        ),
        (SliceSize::Word, false) => binary(BinaryOp::AndInt64, wide, const64(0xffff_ffff)),
        (SliceSize::Word, true) => unary(UnaryOp::ExtendSInt32, unary(UnaryOp::WrapInt64, wide)),
        (SliceSize::Doubleword, _) => wide,
    };
    let shifted_value = if left_shift == 0 {
        value
    } else {
        binary(BinaryOp::ShlInt64, value, const64(left_shift))
    };
    match variant {
        SizeVariant::Reg32 => unary(UnaryOp::WrapInt64, shifted_value),
        SizeVariant::Reg64 => shifted_value,
    }
}

fn add_sub_operand(operand2: AddSubtractRightOperand, variant: SizeVariant) -> (r: Expression)
    ensures
        r == add_sub_operand2(operand2, variant),
{
    match operand2 {
        AddSubtractRightOperand::Immediate(imm) => variant_unsigned_const(variant, imm),
        AddSubtractRightOperand::ShiftedRegister { register, shift_amount, shift_type } => {
            proof {
                lemma_id_bound(register);
            }
            shift_operand(read_register(id(register), width(variant)), shift_amount, shift_type, variant)
        },
        AddSubtractRightOperand::ExtendedRegister { extension, left_shift_amount, register } => {
            proof {
                lemma_id_bound(register);
            }
            extend_operand(id(register), extension, left_shift_amount, variant)
        },
    }
}

fn add_sub_binary_op(op: AddSubtractOp, variant: SizeVariant) -> (r: BinaryOp)
    ensures
        r == add_sub_op(op, variant),
{
    match (op, variant) {
        (AddSubtractOp::Add, SizeVariant::Reg32) => BinaryOp::AddInt32,
        (AddSubtractOp::Add, SizeVariant::Reg64) => BinaryOp::AddInt64,
        (AddSubtractOp::Subtract, SizeVariant::Reg32) => BinaryOp::SubInt32,
        (AddSubtractOp::Subtract, SizeVariant::Reg64) => BinaryOp::SubInt64,
    }
}

fn sign(value: Expression, variant: SizeVariant) -> (r: Expression)
    ensures
        r == sign_of(value, variant),
{
    match variant {
        SizeVariant::Reg32 => binary(BinaryOp::LtSInt32, value, const32(0)),
        SizeVariant::Reg64 => binary(BinaryOp::LtSInt64, value, const64(0)),
    }
}

fn is_zero(value: Expression, variant: SizeVariant) -> (r: Expression)
    ensures
        r == is_zero_of(value, variant),
{
    match variant {
        SizeVariant::Reg32 => binary(BinaryOp::EqInt32, value, const32(0)),
        SizeVariant::Reg64 => binary(BinaryOp::EqInt64, value, const64(0)),
    }
}

fn zero(variant: SizeVariant) -> (r: Expression)
    ensures
        r == zero_of(variant),
{
    match variant {
        SizeVariant::Reg32 => const32(0),
        SizeVariant::Reg64 => const64(0),
    }
}

/// The first operand of an add or subtract.
fn add_sub_first(operand1: Register, variant: SizeVariant) -> (r: Expression)
    ensures
        r == register_read(register_id(operand1), width_of(variant)),
{
    proof {
        lemma_id_bound(operand1);
    }
    read_register(id(operand1), width(variant))
}

/// The result of an add or subtract, at the width of `variant`.
fn add_sub_result(
    op: AddSubtractOp,
    operand1: Register,
    operand2: AddSubtractRightOperand,
    variant: SizeVariant,
) -> (r: Expression)
    ensures
        r == bin(
            add_sub_op(op, variant),
            register_read(register_id(operand1), width_of(variant)),
            add_sub_operand2(operand2, variant),
        ),
{
    binary(
        add_sub_binary_op(op, variant),
        add_sub_first(operand1, variant),
        add_sub_operand(operand2, variant),
    )
}

fn lower_add_sub(
    destination: Register,
    op: AddSubtractOp,
    set_flags: bool,
    operand1: Register,
    operand2: AddSubtractRightOperand,
    variant: SizeVariant,
) -> (r: Vec<Expression>)
    ensures
        r@ == add_sub_lowering(destination, op, set_flags, operand1, operand2, variant),
{
    proof {
        lemma_id_bound(destination);
    }
    let result = add_sub_result(op, operand1, operand2, variant);
    let stored = match variant {
        SizeVariant::Reg32 => unary(UnaryOp::ExtendUInt32, result),
        SizeVariant::Reg64 => result,
    };
    let mut out: Vec<Expression> = Vec::new();
    out.push(write_register(id(destination), Width::W64, stored));
    if set_flags {
        let negative = sign(add_sub_result(op, operand1, operand2, variant), variant);
        out.push(write_register(NEGATIVE_FLAG_ID, Width::W32, negative));
        let zero_test = is_zero(add_sub_result(op, operand1, operand2, variant), variant);
        out.push(write_register(ZERO_FLAG_ID, Width::W32, zero_test));
        let carry = match (op, variant) {
            (AddSubtractOp::Add, SizeVariant::Reg32) => binary(
                BinaryOp::LtUInt32,
                add_sub_result(op, operand1, operand2, variant),
                add_sub_first(operand1, variant),
            ),
            (AddSubtractOp::Add, SizeVariant::Reg64) => binary(
                BinaryOp::LtUInt64,
                add_sub_result(op, operand1, operand2, variant),
                add_sub_first(operand1, variant),
            ),
            (AddSubtractOp::Subtract, SizeVariant::Reg32) => binary(
                BinaryOp::GeUInt32,
                add_sub_first(operand1, variant),
                add_sub_operand(operand2, variant),
            ),
            (AddSubtractOp::Subtract, SizeVariant::Reg64) => binary(
                BinaryOp::GeUInt64,
                add_sub_first(operand1, variant),
                add_sub_operand(operand2, variant),
            ),
        };
        out.push(write_register(CARRY_FLAG_ID, Width::W32, carry));
        let signs_differ = binary(
            BinaryOp::XorInt32,
            sign(add_sub_first(operand1, variant), variant),
            sign(add_sub_operand(operand2, variant), variant),
        );
        let result_sign_differs = binary(
            BinaryOp::XorInt32,
            sign(add_sub_first(operand1, variant), variant),
            sign(add_sub_result(op, operand1, operand2, variant), variant),
        );
        let overflow = match op {
            AddSubtractOp::Add => binary(
                BinaryOp::AndInt32,
                unary(UnaryOp::EqZInt32, signs_differ),
                result_sign_differs,
            ),
            AddSubtractOp::Subtract => binary(BinaryOp::AndInt32, signs_differ, result_sign_differs),
        };
        out.push(write_register(OVERFLOW_FLAG_ID, Width::W32, overflow));
    }
    proof {
        assert(out@ =~= add_sub_lowering(destination, op, set_flags, operand1, operand2, variant));
    }
    out
}


fn load_variant(op: LoadStoreOp, size: SliceSize) -> (r: LoadVariant)
    ensures
        r == load_variant_of(op, size),
{
    match (op, size) {
        (_, SliceSize::Doubleword) => LoadVariant::I64,
        (LoadStoreOp::LoadSignExtend { variant: SizeVariant::Reg64 }, SliceSize::Byte) =>
            LoadVariant::I64L8 { signed: true },
        (LoadStoreOp::LoadSignExtend { variant: SizeVariant::Reg64 }, SliceSize::Halfword) =>
            LoadVariant::I64L16 { signed: true },
        (LoadStoreOp::LoadSignExtend { variant: SizeVariant::Reg64 }, SliceSize::Word) =>
            LoadVariant::I64L32 { signed: true },
        (LoadStoreOp::LoadSignExtend { variant: SizeVariant::Reg32 }, SliceSize::Byte) =>
            LoadVariant::I32L8 { signed: true },
        (LoadStoreOp::LoadSignExtend { variant: SizeVariant::Reg32 }, SliceSize::Halfword) =>
            LoadVariant::I32L16 { signed: true },
        (_, SliceSize::Byte) => LoadVariant::I32L8 { signed: false },
        (_, SliceSize::Halfword) => LoadVariant::I32L16 { signed: false },
        (_, SliceSize::Word) => LoadVariant::I32,
    }
}

fn load_width(op: LoadStoreOp, size: SliceSize) -> (r: Width)
    ensures
        r == load_width_of(op, size),
{
    match (op, size) {
        (_, SliceSize::Doubleword) => Width::W64,
        (LoadStoreOp::LoadSignExtend { variant }, _) => width(variant),
        _ => Width::W32,
    }
}

fn store_variant(size: SliceSize) -> (r: StoreVariant)
    ensures
        r == store_variant_of(size),
{
    match size {
        SliceSize::Byte => StoreVariant::I32L8,
        SliceSize::Halfword => StoreVariant::I32L16,
        SliceSize::Word => StoreVariant::I32,
        SliceSize::Doubleword => StoreVariant::I64,
    }
}

fn store_width(size: SliceSize) -> (r: Width)
    ensures
        r == store_width_of(size),
{
    match size {
        SliceSize::Doubleword => Width::W64,
        _ => Width::W32,
    }
}

fn address_of_access(address: Register, offset: LoadStoreOffset) -> (r: (Expression, u32))
    ensures
        r == access_address(address, offset),
{
    proof {
        lemma_id_bound(address);
    }
    let base = read_register(id(address), Width::W64);
    match offset {
        LoadStoreOffset::Immediate { offset } => if offset.access < 0 {
            (binary(BinaryOp::AddInt64, base, const64(offset.access as i64 as u64)), 0)
        } else {
            (base, offset.access as u32)
        },
        LoadStoreOffset::Register { extension, register, shift_amount } => {
            proof {
                lemma_id_bound(register);
            }
            let is_word = match extension.size {
                SliceSize::Word => true,
                _ => false,
            };
            let index = if is_word {
                unary(
                    if extension.signed {
                        UnaryOp::ExtendSInt32
                    } else {
                        UnaryOp::ExtendUInt32
                    },
                    read_register(id(register), Width::W32),
                )
            } else {
                read_register(id(register), Width::W64)
            };
            (
                binary(
                    BinaryOp::AddInt64,
                    base,
                    binary(BinaryOp::ShlInt64, index, const64(shift_amount)),
                ),
                0,
            )
        },
    }
}

fn lower_load_store(
    address: Register,
    offset: LoadStoreOffset,
    op: LoadStoreOp,
    size: SliceSize,
    value: Register,
) -> (r: Vec<Expression>)
    ensures
        r@ == load_store_lowering(address, offset, op, size, value),
{
    proof {
        lemma_id_bound(address);
        lemma_id_bound(value);
    }
    let (address_expr, access_offset) = address_of_access(address, offset);
    let access = match op {
        LoadStoreOp::Store => Expression::Store {
            variant: store_variant(size),
            value: Box::new(read_register(id(value), store_width(size))),
            address: Box::new(address_expr),
            offset: access_offset,
            align: 1,
        },
        _ => write_register(
            id(value),
            load_width(op, size),
            Expression::Load {
                variant: load_variant(op, size),
                address: Box::new(address_expr),
                offset: access_offset,
                align: 1,
            },
        ),
    };
    let mut out: Vec<Expression> = Vec::new();
    out.push(access);
    match offset {
        LoadStoreOffset::Immediate { offset: WritebackOffset { writeback: Some(writeback), .. } } => {
            let updated = binary(
                BinaryOp::AddInt64,
                read_register(id(address), Width::W64),
                const64(writeback as i64 as u64),
            );
            out.push(write_register(id(address), Width::W64, updated));
        },
        _ => {},
    }
    proof {
        assert(out@ =~= load_store_lowering(address, offset, op, size, value));
    }
    out
}

fn logical_binary_op(op: LogicalOp, variant: SizeVariant) -> (r: (BinaryOp, bool))
    ensures
        r == logical_op_of(op, variant),
{
    match (op, variant) {
        (LogicalOp::And { set_flags }, SizeVariant::Reg32) => (BinaryOp::AndInt32, set_flags),
        (LogicalOp::And { set_flags }, SizeVariant::Reg64) => (BinaryOp::AndInt64, set_flags),
        (LogicalOp::Or, SizeVariant::Reg32) => (BinaryOp::OrInt32, false),
        (LogicalOp::Or, SizeVariant::Reg64) => (BinaryOp::OrInt64, false),
        (LogicalOp::Xor, SizeVariant::Reg32) => (BinaryOp::XorInt32, false),
        (LogicalOp::Xor, SizeVariant::Reg64) => (BinaryOp::XorInt64, false),
    }
}

/// The second operand of a logical instruction: its immediate, or its shifted (and
/// possibly inverted) register.
enum LogicalOperand {
    Immediate(u64),
    Register { register: Register, inverse: bool, shift_amount: u64, shift_type: Shift },
}

spec fn logical_operand_of(operand: LogicalOperand, variant: SizeVariant) -> Expression {
    match operand {
        LogicalOperand::Immediate(value) => unsigned_const(variant, value),
        LogicalOperand::Register { register, inverse, shift_amount, shift_type } =>
            logical_register_operand(register, inverse, shift_amount, shift_type, variant),
    }
}

fn logical_operand(operand: &LogicalOperand, variant: SizeVariant) -> (r: Expression)
    ensures
        r == logical_operand_of(*operand, variant),
{
    match operand {
        LogicalOperand::Immediate(value) => variant_unsigned_const(variant, *value),
        LogicalOperand::Register { register, inverse, shift_amount, shift_type } => {
            proof {
                lemma_id_bound(*register);
            }
            let operand = shift_operand(
                read_register(id(*register), width(variant)),
                *shift_amount,
                *shift_type,
                variant,
            );
            if *inverse {
                match variant {
                    SizeVariant::Reg32 => binary(BinaryOp::XorInt32, operand, const32(0xffff_ffff)),
                    SizeVariant::Reg64 => binary(
                        BinaryOp::XorInt64,
                        operand,
                        const64(0xffff_ffff_ffff_ffff),
                    ),
                }
            } else {
                operand
            }
        },
    }
}

fn logical_result(
    op: LogicalOp,
    operand1: Register,
    operand2: &LogicalOperand,
    variant: SizeVariant,
) -> (r: Expression)
    ensures
        r == bin(
            logical_op_of(op, variant).0,
            register_read(register_id(operand1), width_of(variant)),
            logical_operand_of(*operand2, variant),
        ),
{
    proof {
        lemma_id_bound(operand1);
    }
    let (binary_op, _) = logical_binary_op(op, variant);
    binary(binary_op, read_register(id(operand1), width(variant)), logical_operand(operand2, variant))
}

fn lower_logical(
    destination: Register,
    op: LogicalOp,
    operand1: Register,
    operand2: LogicalOperand,
    variant: SizeVariant,
) -> (r: Vec<Expression>)
    ensures
        r@ == logical_lowering(
            destination,
            op,
            operand1,
            logical_operand_of(operand2, variant),
            variant,
        ),
{
    proof {
        lemma_id_bound(destination);
    }
    let (_, set_flags) = logical_binary_op(op, variant);
    let mut out: Vec<Expression> = Vec::new();
    out.push(
        write_register(
            id(destination),
            width(variant),
            logical_result(op, operand1, &operand2, variant),
        ),
    );
    if set_flags {
        let negative = sign(logical_result(op, operand1, &operand2, variant), variant);
        out.push(write_register(NEGATIVE_FLAG_ID, Width::W32, negative));
        let zero_test = is_zero(logical_result(op, operand1, &operand2, variant), variant);
        out.push(write_register(ZERO_FLAG_ID, Width::W32, zero_test));
        out.push(write_register(CARRY_FLAG_ID, Width::W32, const32(0)));
        out.push(write_register(OVERFLOW_FLAG_ID, Width::W32, const32(0)));
    }
    proof {
        assert(out@ =~= logical_lowering(
            destination,
            op,
            operand1,
            logical_operand_of(operand2, variant),
            variant,
        ));
    }
    out
}

fn lower_move_wide(
    destination: Register,
    keep_shift: Option<u32>,
    source: Register,
    value: u64,
    variant: SizeVariant,
) -> (r: Vec<Expression>)
    requires
        keep_shift_fits(keep_shift, variant),
    ensures
        r@ == move_wide_lowering(destination, keep_shift, source, value, variant),
{
    proof {
        lemma_id_bound(destination);
        lemma_id_bound(source);
    }
    let immediate = variant_unsigned_const(variant, value);
    let result = match keep_shift {
        Some(shift) => match variant {
            SizeVariant::Reg32 => binary(
                BinaryOp::OrInt32,
                immediate,
                binary(
                    BinaryOp::AndInt32,
                    read_register(id(source), Width::W32),
                    const32(!(0xffffu32 << shift)),
                ),
            ),
            SizeVariant::Reg64 => binary(
                BinaryOp::OrInt64,
                immediate,
                binary(
                    BinaryOp::AndInt64,
                    read_register(id(source), Width::W64),
                    const64(!(0xffffu64 << shift)),
                ),
            ),
        },
        None => immediate,
    };
    let mut out: Vec<Expression> = Vec::new();
    out.push(write_register(id(destination), width(variant), result));
    proof {
        assert(out@ =~= move_wide_lowering(destination, keep_shift, source, value, variant));
    }
    out
}

/// The reads of `registers` at 64 bits.
fn read_all(registers: &Vec<u32>) -> (r: Vec<Expression>)
    requires
        forall|k: int| 0 <= k < registers.len() ==> #[trigger] registers[k] < 70,
    ensures
        r@ == wide_reads(registers@),
{
    let mut out: Vec<Expression> = Vec::new();
    let mut i: usize = 0;
    while i < registers.len()
        invariant
            i <= registers.len(),
            out.len() == i,
            forall|k: int| 0 <= k < registers.len() ==> #[trigger] registers[k] < 70,
            forall|k: int| 0 <= k < i ==> #[trigger] out[k] == register_read(registers[k], Width::W64),
        decreases registers.len() - i,
    {
        out.push(read_register(registers[i], Width::W64));
        i = i + 1;
    }
    proof {
        assert(out@ =~= wide_reads(registers@));
    }
    out
}

/// Appends the writes of the elements of the tuple in local `scratch` to `registers`.
fn push_tuple_writes(out: &mut Vec<Expression>, registers: &Vec<u32>, scratch: u32)
    requires
        registers.len() <= u32::MAX,
        forall|k: int| 0 <= k < registers.len() ==> #[trigger] registers[k] < 70,
    ensures
        final(out)@ == old(out)@ + tuple_writes(registers@, scratch),
{
    let ghost start = out@;
    let mut i: usize = 0;
    while i < registers.len()
        invariant
            i <= registers.len(),
            registers.len() <= u32::MAX,
            forall|k: int| 0 <= k < registers.len() ==> #[trigger] registers[k] < 70,
            out@.len() == start.len() + i,
            forall|k: int| 0 <= k < start.len() ==> #[trigger] out@[k] == start[k],
            forall|k: int|
                0 <= k < i ==> #[trigger] out@[start.len() + k] == tuple_writes(registers@, scratch)[k],
        decreases registers.len() - i,
    {
        let element = Expression::TupleExtract {
            tuple: Box::new(Expression::LocalGet { index: scratch }),
            index: i as u32,
        };
        out.push(write_register(registers[i], Width::W64, element));
        proof {
            assert(out@[start.len() + i] == tuple_writes(registers@, scratch)[i as int]);
        }
        i = i + 1;
    }
    proof {
        let expected = start + tuple_writes(registers@, scratch);
        assert forall|j: int| 0 <= j < out@.len() implies out@[j] == expected[j] by {
            if j >= start.len() {
                let k = j - start.len();
                assert(out@[start.len() + k] == tuple_writes(registers@, scratch)[k]);
            }
        }
        assert(out@ =~= expected);
    }
}

fn lower_call(ctx: &RoutineContext, target: u64) -> (r: Vec<Expression>)
    requires
        context_ok(*ctx),
    ensures
        r@ == call_lowering(*ctx, target),
{
    let mut out: Vec<Expression> = Vec::new();
    match find_address(ctx.routine_addresses.as_slice(), target) {
        Some(routine_index) => {
            let arguments = expression_list(read_all(&ctx.return_registers));
            out.push(
                Expression::LocalSet {
                    index: ctx.func_return_scratch_local_index,
                    value: Box::new(
                        Expression::Call { target: CallTarget::Routine(routine_index), arguments },
                    ),
                },
            );
            push_tuple_writes(&mut out, &ctx.return_registers, ctx.func_return_scratch_local_index);
        },
        None => {
            out.push(Expression::Unreachable);
        },
    }
    proof {
        assert(out@ =~= call_lowering(*ctx, target));
    }
    out
}

fn lower_supervisor_call(ctx: &RoutineContext, argument: u16) -> (r: Vec<Expression>)
    ensures
        r@ == supervisor_call_lowering(*ctx, argument),
{
    let params = crate::arm::arch::Arm.svc_param_registers();
    let results = crate::arm::arch::Arm.svc_return_registers();
    proof {
        lemma_ids_bound(svc_param_registers());
        lemma_ids_bound(svc_return_registers());
    }
    let mut arguments: Vec<Expression> = Vec::new();
    arguments.push(const32(argument as u32));
    let mut reads = read_all(&params);
    arguments.append(&mut reads);
    let mut out: Vec<Expression> = Vec::new();
    out.push(
        Expression::LocalSet {
            index: ctx.svc_return_scratch_local_index,
            value: Box::new(
                Expression::Call {
                    target: CallTarget::SupervisorCall,
                    arguments: expression_list(arguments),
                },
            ),
        },
    );
    push_tuple_writes(&mut out, &results, ctx.svc_return_scratch_local_index);
    proof {
        assert(out@ =~= supervisor_call_lowering(*ctx, argument));
    }
    out
}


fn condition_value(condition: Condition) -> (r: Expression)
    ensures
        r == condition_expression(condition),
{
    match condition {
        Condition::EQ => read_register(ZERO_FLAG_ID, Width::W32),
        Condition::NE => unary(UnaryOp::EqZInt32, read_register(ZERO_FLAG_ID, Width::W32)),
        Condition::LT => binary(
            BinaryOp::NeInt32,
            read_register(NEGATIVE_FLAG_ID, Width::W32),
            read_register(OVERFLOW_FLAG_ID, Width::W32),
        ),
        Condition::GT => binary(
            BinaryOp::AndInt32,
            unary(UnaryOp::EqZInt32, read_register(ZERO_FLAG_ID, Width::W32)),
            binary(
                BinaryOp::EqInt32,
                read_register(NEGATIVE_FLAG_ID, Width::W32),
                read_register(OVERFLOW_FLAG_ID, Width::W32),
            ),
        ),
        _ => const32(1),
    }
}

fn compare_op(branch_if_zero: bool, variant: SizeVariant) -> (r: BinaryOp)
    ensures
        r == branch_compare_op(branch_if_zero, variant),
{
    match (branch_if_zero, variant) {
        (false, SizeVariant::Reg32) => BinaryOp::NeInt32,
        (false, SizeVariant::Reg64) => BinaryOp::NeInt64,
        (true, SizeVariant::Reg32) => BinaryOp::EqInt32,
        (true, SizeVariant::Reg64) => BinaryOp::EqInt64,
    }
}

impl ArmInstruction {
    /// The expressions the instruction, at `current_address`, is lowered to, appended to
    /// `block_exprs`.
    pub fn translate(&self, ctx: &RoutineContext, current_address: u64, block_exprs: &mut Vec<Expression>)
        requires
            lowerable(self.0),
            context_ok(*ctx),
        ensures
            final(block_exprs)@ == old(block_exprs)@ + lowering(self.0, *ctx, current_address),
    {
        let mut lowered = match self.0 {
            Instruction::AddSubtract { destination, op, set_flags, operand1, operand2, variant } =>
                lower_add_sub(destination, op, set_flags, operand1, operand2, variant),
            Instruction::FormPCRelativeAddress { aligned_to_page, destination, value } => {
                proof {
                    lemma_id_bound(destination);
                }
                let base = if aligned_to_page {
                    current_address & !0xfffu64
                } else {
                    current_address
                };
                let mut out: Vec<Expression> = Vec::new();
                out.push(
                    write_register(
                        id(destination),
                        Width::W64,
                        const64(base.wrapping_add_signed(value)),
                    ),
                );
                proof {
                    assert(out@ =~= lowering(self.0, *ctx, current_address));
                }
                out
            },
            Instruction::LoadStoreRegister { address, offset, op, size, value } =>
                lower_load_store(address, offset, op, size, value),
            Instruction::LogicalImmediate { destination, op, operand1, operand2, variant } =>
                lower_logical(
                    destination,
                    op,
                    operand1,
                    LogicalOperand::Immediate(operand2),
                    variant,
                ),
            Instruction::LogicalShiftedRegister {
                destination,
                inverse_operand2,
                op,
                operand1,
                operand2,
                shift_amount,
                shift_type,
                variant,
            } => lower_logical(
                destination,
                op,
                operand1,
                LogicalOperand::Register {
                    register: operand2,
                    inverse: inverse_operand2,
                    shift_amount,
                    shift_type,
                },
                variant,
            ),
            Instruction::MoveWide { destination, keep_shift, source, value, variant } =>
                lower_move_wide(destination, keep_shift, source, value, variant),
            Instruction::UnconditionalBranch {
                link: true,
                target: BranchTarget::RelativeInstructionOffset(target_offset),
            } => {
                let target = current_address.wrapping_add_signed(target_offset.wrapping_mul(4));
                proof {
                    crate::arm::translation::lemma_jump_target(current_address, target_offset);
                }
                lower_call(ctx, target)
            },
            Instruction::SupervisorCall { argument } => lower_supervisor_call(ctx, argument),
            Instruction::Nop => {
                let mut out: Vec<Expression> = Vec::new();
                out.push(Expression::Nop);
                proof {
                    assert(out@ =~= lowering(self.0, *ctx, current_address));
                }
                out
            },
            Instruction::Return { .. } => {
                let mut out: Vec<Expression> = Vec::new();
                out.push(ctx.return_());
                proof {
                    assert(out@ =~= lowering(self.0, *ctx, current_address));
                }
                out
            },
            Instruction::UnconditionalBranch { .. }
            | Instruction::BranchConditionally { .. }
            | Instruction::CompareAndBranch { .. }
            | Instruction::TestBitAndBranch { .. } => {
                let out: Vec<Expression> = Vec::new();
                proof {
                    assert(out@ =~= lowering(self.0, *ctx, current_address));
                }
                out
            },
            _ => {
                let mut out: Vec<Expression> = Vec::new();
                out.push(Expression::Nop);
                proof {
                    assert(out@ =~= lowering(self.0, *ctx, current_address));
                }
                out
            },
        };
        block_exprs.append(&mut lowered);
    }

    /// The condition under which the branch is taken, or none for an unconditional
    /// branch.
    pub fn branch_condition(&self) -> (r: Option<Expression>)
        requires
            is_branch(self.0),
        ensures
            r == branch_condition_of(self.0),
    {
        match self.0 {
            Instruction::BranchConditionally { condition, .. } => Some(condition_value(condition)),
            Instruction::CompareAndBranch { branch_if_zero, register, variant, .. } => {
                proof {
                    lemma_id_bound(register);
                }
                Some(
                    binary(
                        compare_op(branch_if_zero, variant),
                        read_register(id(register), width(variant)),
                        zero(variant),
                    ),
                )
            },
            Instruction::TestBitAndBranch { branch_if_zero, register, test_bit, variant, .. } => {
                proof {
                    lemma_id_bound(register);
                }
                let shifted_value = binary(
                    match variant {
                        SizeVariant::Reg32 => BinaryOp::ShrUInt32,
                        SizeVariant::Reg64 => BinaryOp::ShrUInt64,
                    },
                    read_register(id(register), width(variant)),
                    variant_unsigned_const(variant, test_bit as u64),
                );
                let one = match variant {
                    SizeVariant::Reg32 => const32(1),
                    SizeVariant::Reg64 => const64(1),
                };
                Some(binary(compare_op(branch_if_zero, variant), shifted_value, one))
            },
            _ => None,
        }
    }
}

/// Whether `i` is one of the instructions that `translate_instruction` lowers in full:
/// additions and subtractions, logical operations with an immediate, calls to a
/// relative address, supervisor calls, no-ops and returns.
pub open spec fn basic_instruction(i: Instruction) -> bool {
    match i {
        Instruction::AddSubtract { .. } => true,
        Instruction::LogicalImmediate { .. } => true,
        Instruction::UnconditionalBranch {
            link: true,
            target: BranchTarget::RelativeInstructionOffset(_),
        } => true,
        Instruction::SupervisorCall { .. } => true,
        Instruction::Nop => true,
        Instruction::Return { .. } => true,
        _ => false,
    }
}

/// The expressions `translate_instruction` lowers `i` at `address` to: its lowering
/// where it is a basic instruction, else a no-op.
pub open spec fn basic_lowering(i: Instruction, ctx: RoutineContext, address: u64) -> Seq<Expression> {
    if basic_instruction(i) {
        lowering(i, ctx, address)
    } else {
        seq![Expression::Nop]
    }
}

/// The return of a function: the tuple of the return registers, read at 64 bits.
pub open spec fn function_return(ctx: RoutineContext) -> Expression {
    Expression::Return(Box::new(Expression::Tuple(list_of(wide_reads(ctx.return_registers@)))))
}

impl RoutineContext {
    /// Returns from the function with the values of its return registers.
    pub fn return_(&self) -> (r: Expression)
        requires
            context_ok(*self),
        ensures
            r == function_return(*self),
    {
        let values = expression_list(read_all(&self.return_registers));
        Expression::Return(Box::new(Expression::Tuple(values)))
    }

    /// Appends to `block_exprs` the expressions of `instruction` at `address`, for the
    /// basic instructions; any other instruction, branches included, becomes a no-op.
    pub fn translate_instruction(&self, address: u64, instruction: &Instruction, block_exprs: &mut Vec<Expression>)
        requires
            instruction matches Instruction::Return { target } ==> target == Register::X30,
            context_ok(*self),
        ensures
            final(block_exprs)@ == old(block_exprs)@ + basic_lowering(*instruction, *self, address),
    {
        let basic = match instruction {
            Instruction::AddSubtract { .. } => true,
            Instruction::LogicalImmediate { .. } => true,
            Instruction::UnconditionalBranch {
                link: true,
                target: BranchTarget::RelativeInstructionOffset(_),
            } => true,
            Instruction::SupervisorCall { .. } => true,
            Instruction::Nop => true,
            Instruction::Return { .. } => true,
            _ => false,
        };
        if basic {
            ArmInstruction(*instruction).translate(self, address, block_exprs);
        } else {
            block_exprs.push(Expression::Nop);
        }
    }
}



/// The context for lowering the routines of an Arm program whose routines start at
/// `routine_addresses`: functions return the argument registers, and the call result
/// locals follow the block selector.
pub fn arm_routine_context(routine_addresses: Vec<u64>) -> (r: RoutineContext)
    ensures
        r.return_registers@ == ids(default_param_registers()),
        r.func_return_scratch_local_index == FUNC_RETURN_SCRATCH_LOCAL,
        r.svc_return_scratch_local_index == SVC_RETURN_SCRATCH_LOCAL,
        r.routine_addresses@ == routine_addresses@,
        context_ok(r),
{
    let return_registers = crate::arm::arch::Arm.param_registers();
    proof {
        lemma_ids_bound(default_param_registers());
    }
    RoutineContext {
        return_registers,
        func_return_scratch_local_index: FUNC_RETURN_SCRATCH_LOCAL,
        svc_return_scratch_local_index: SVC_RETURN_SCRATCH_LOCAL,
        routine_addresses,
    }
}

/// The start addresses of the routines of `analysis`, in the order of its routines.
pub fn routine_addresses(analysis: &Analysis) -> (r: Vec<u64>)
    ensures
        r.len() == analysis.routines.len(),
        forall|k: int| 0 <= k < r.len() ==> #[trigger] r[k] == analysis.routines[k].address,
{
    let mut out: Vec<u64> = Vec::new();
    let mut i: usize = 0;
    while i < analysis.routines.len()
        invariant
            i <= analysis.routines.len(),
            out.len() == i,
            forall|k: int| 0 <= k < i ==> #[trigger] out[k] == analysis.routines[k].address,
        decreases analysis.routines.len() - i,
    {
        out.push(analysis.routines[i].address);
        i = i + 1;
    }
    out
}

/// The lowering of `instructions`, the first at `start` and each four bytes after the
/// previous one, in order.
pub open spec fn instructions_lowering(
    instructions: Seq<ArmInstruction>,
    ctx: RoutineContext,
    start: u64,
) -> Seq<Expression>
    decreases instructions.len(),
{
    if instructions.len() == 0 {
        Seq::empty()
    } else {
        instructions_lowering(instructions.drop_last(), ctx, start) + lowering(
            instructions.last().0,
            ctx,
            (start + 4 * (instructions.len() - 1)) as u64,
        )
    }
}

/// Whether the instructions of `block` can be lowered: each one can, and their addresses
/// stay below the top of the address space.
pub open spec fn block_lowerable(block: Block) -> bool {
    &&& forall|k: int| 0 <= k < block.instructions.len() ==> lowerable(#[trigger] block.instructions[k].0)
    &&& block.start_address + 4 * block.instructions.len() <= u64::MAX
}

/// The expressions of `block`: its instructions lowered in order, then a trap where
/// the block neither falls through nor jumps.
pub open spec fn block_lowering(block: Block, ctx: RoutineContext) -> Seq<Expression> {
    instructions_lowering(block.instructions@, ctx, block.start_address) + if block.fallthrough_block_index is None
        && block.jump_block_index is None {
        seq![Expression::Unreachable]
    } else {
        Seq::empty()
    }
}

/// Lowers the instructions of `block`, and ends a block that neither falls through nor
/// jumps with a trap.
pub fn translate_block(block: &Block, ctx: &RoutineContext) -> (r: Vec<Expression>)
    requires
        block_lowerable(*block),
        context_ok(*ctx),
    ensures
        r@ == block_lowering(*block, *ctx),
{
    let mut out: Vec<Expression> = Vec::new();
    let mut i: usize = 0;
    while i < block.instructions.len()
        invariant
            i <= block.instructions.len(),
            block_lowerable(*block),
            context_ok(*ctx),
            out@ == instructions_lowering(block.instructions@.take(i as int), *ctx, block.start_address),
        decreases block.instructions.len() - i,
    {
        let address = block.start_address + 4 * (i as u64);
        block.instructions[i].translate(ctx, address, &mut out);
        proof {
            let taken = block.instructions@.take(i + 1);
            assert(taken.drop_last() =~= block.instructions@.take(i as int));
            assert(taken.last() == block.instructions@[i as int]);
        }
        i = i + 1;
    }
    proof {
        assert(block.instructions@.take(block.instructions.len() as int) =~= block.instructions@);
    }
    if block.fallthrough_block_index.is_none() && block.jump_block_index.is_none() {
        out.push(Expression::Unreachable);
    }
    out
}

/// A control flow edge between two blocks of a routine, taken where its condition holds
/// (always, without one).
#[derive(Debug, PartialEq, Eq)]
pub struct BlockBranch {
    pub from: usize,
    pub to: usize,
    pub condition: Option<Expression>,
}

/// The lowered routine: the expressions of each block, and the edges between blocks.
#[derive(Debug)]
pub struct RoutineTranslation {
    pub blocks: Vec<Vec<Expression>>,
    pub branches: Vec<BlockBranch>,
}

/// Whether the blocks of `routine` can be lowered, and each block that jumps ends with a
/// branch, which is unconditional unless the block also falls through.
pub open spec fn routine_lowerable(routine: Routine) -> bool {
    forall|k: int|
        0 <= k < routine.blocks.len() ==> {
            let block = #[trigger] routine.blocks[k];
            &&& block_lowerable(block)
            &&& block.jump_block_index is Some ==> {
                &&& block.instructions.len() > 0
                &&& is_branch(block.instructions@.last().0)
                &&& !(block.instructions@.last().0 is UnconditionalBranch)
                    ==> block.fallthrough_block_index is Some
            }
        }
}

/// The edges leaving the block with index `k`: to the block it falls through to, then to
/// the block it jumps to, with the constant condition 1 where its branch is conditional.
pub open spec fn block_branches(block: Block, k: int) -> Seq<BlockBranch> {
    (match block.fallthrough_block_index {
        Some(to) => seq![BlockBranch { from: k as usize, to, condition: None }],
        None => Seq::empty(),
    }) + match block.jump_block_index {
        Some(to) => seq![
            BlockBranch {
                from: k as usize,
                to,
                condition: if block.instructions@.last().0 is UnconditionalBranch {
                    None
                } else {
                    Some(c32(1))
                },
            },
        ],
        None => Seq::empty(),
    }
}

/// The edges of the first `n` blocks of `blocks`, block by block.
pub open spec fn branches_of(blocks: Seq<Block>, n: int) -> Seq<BlockBranch>
    decreases n,
{
    if n <= 0 {
        Seq::empty()
    } else {
        branches_of(blocks, n - 1) + block_branches(blocks[n - 1], n - 1)
    }
}

/// Whether `r` is the lowering of `routine`: each block's expressions, and the edges of
/// all blocks.
pub open spec fn routine_lowering(r: RoutineTranslation, routine: Routine, ctx: RoutineContext) -> bool {
    &&& r.blocks.len() == routine.blocks.len()
    &&& forall|k: int|
        0 <= k < r.blocks.len() ==> (#[trigger] r.blocks[k])@ == block_lowering(
            routine.blocks[k],
            ctx,
        )
    &&& r.branches@ == branches_of(routine.blocks@, routine.blocks.len() as int)
}

/// Lowers the blocks of `routine` and collects the edges between them.
pub fn translate_routine(routine: &Routine, ctx: &RoutineContext) -> (r: RoutineTranslation)
    requires
        routine_lowerable(*routine),
        context_ok(*ctx),
    ensures
        routine_lowering(r, *routine, *ctx),
{
    let mut blocks: Vec<Vec<Expression>> = Vec::new();
    let mut branches: Vec<BlockBranch> = Vec::new();
    let mut i: usize = 0;
    while i < routine.blocks.len()
        invariant
            i <= routine.blocks.len(),
            routine_lowerable(*routine),
            context_ok(*ctx),
            blocks.len() == i,
            forall|k: int|
                0 <= k < i ==> (#[trigger] blocks[k])@ == block_lowering(routine.blocks[k], *ctx),
            branches@ == branches_of(routine.blocks@, i as int),
        decreases routine.blocks.len() - i,
    {
        let block = &routine.blocks[i];
        blocks.push(translate_block(block, ctx));
        let ghost before = branches@;
        match block.fallthrough_block_index {
            Some(to) => {
                branches.push(BlockBranch { from: i, to, condition: None });
            },
            None => {},
        }
        match block.jump_block_index {
            Some(to) => {
                let last = block.instructions.len() - 1;
                let unconditional = match block.instructions[last].0 {
                    Instruction::UnconditionalBranch { .. } => true,
                    _ => false,
                };
                let condition = if unconditional {
                    None
                } else {
                    Some(const32(1))
                };
                branches.push(BlockBranch { from: i, to, condition });
            },
            None => {},
        }
        proof {
            assert(branches@ =~= before + block_branches(routine.blocks[i as int], i as int));
        }
        i = i + 1;
    }
    RoutineTranslation { blocks, branches }
}


/// Whether the lowering is defined on `i`.
pub fn is_lowerable(i: &Instruction) -> (r: bool)
    ensures
        r == lowerable(*i),
{
    match i {
        Instruction::Return { target } => match target {
            Register::X30 => true,
            _ => false,
        },
        Instruction::MoveWide { keep_shift, variant, .. } => match keep_shift {
            Some(shift) => match variant {
                SizeVariant::Reg32 => *shift < 32,
                SizeVariant::Reg64 => *shift < 64,
            },
            None => true,
        },
        _ => true,
    }
}

fn is_block_lowerable(block: &Block) -> (r: bool)
    ensures
        r == block_lowerable(*block),
{
    let count = block.instructions.len();
    if count as u64 > (u64::MAX - block.start_address) / 4 {
        return false;
    }
    let mut i: usize = 0;
    while i < count
        invariant
            count == block.instructions.len(),
            i <= count,
            forall|k: int| 0 <= k < i ==> lowerable(#[trigger] block.instructions[k].0),
        decreases count - i,
    {
        if !is_lowerable(&block.instructions[i].0) {
            return false;
        }
        i = i + 1;
    }
    true
}

/// Whether the blocks of `routine` can be lowered by `translate_routine`.
pub fn is_routine_lowerable(routine: &Routine) -> (r: bool)
    ensures
        r == routine_lowerable(*routine),
{
    let mut i: usize = 0;
    while i < routine.blocks.len()
        invariant
            i <= routine.blocks.len(),
            forall|k: int|
                0 <= k < i ==> {
                    let block = #[trigger] routine.blocks[k];
                    &&& block_lowerable(block)
                    &&& block.jump_block_index is Some ==> {
                        &&& block.instructions.len() > 0
                        &&& is_branch(block.instructions@.last().0)
                        &&& !(block.instructions@.last().0 is UnconditionalBranch)
                            ==> block.fallthrough_block_index is Some
                    }
                },
        decreases routine.blocks.len() - i,
    {
        let block = &routine.blocks[i];
        if !is_block_lowerable(block) {
            return false;
        }
        if block.jump_block_index.is_some() {
            if block.instructions.len() == 0 {
                return false;
            }
            let last = &block.instructions[block.instructions.len() - 1].0;
            let (branch, unconditional) = match last {
                Instruction::UnconditionalBranch { .. } => (true, true),
                Instruction::BranchConditionally { .. } => (true, false),
                Instruction::CompareAndBranch { .. } => (true, false),
                Instruction::TestBitAndBranch { .. } => (true, false),
                _ => (false, false),
            };
            if !branch {
                return false;
            }
            if !unconditional && block.fallthrough_block_index.is_none() {
                return false;
            }
        }
        i = i + 1;
    }
    true
}


/// Registers other than the zero register get locals of their own, below `LOCAL_COUNT`,
/// apart from the block selector and the call result locals.
pub proof fn lemma_register_locals_distinct(a: Register, b: Register)
    requires
        a != Register::XZR,
        b != Register::XZR,
    ensures
        register_local(register_id(a)) < LOCAL_COUNT,
        register_local(register_id(a)) != RELOOPER_HELPER_LOCAL,
        register_local(register_id(a)) != FUNC_RETURN_SCRATCH_LOCAL,
        register_local(register_id(a)) != SVC_RETURN_SCRATCH_LOCAL,
        a != b ==> register_local(register_id(a)) != register_local(register_id(b)),
{
}

/// The local an expression writes, if it is a local write.
pub open spec fn written_local(e: Expression) -> Option<u32> {
    match e {
        Expression::LocalSet { index, .. } => Some(index),
        _ => None,
    }
}

/// Whether `i` calls out of the routine: a BL to a relative target, or an SVC.
pub open spec fn is_call(i: Instruction) -> bool {
    ||| i matches Instruction::UnconditionalBranch {
        link: true,
        target: BranchTarget::RelativeInstructionOffset(_),
    }
    ||| i is SupervisorCall
}

/// Whether `index` is the local of a register that `i` writes, or of a flag.
pub open spec fn local_of_written_register(i: Instruction, index: u32) -> bool {
    ||| exists|k: int|
        0 <= k < registers_written_by(i).len() && register_local(
            register_id(#[trigger] registers_written_by(i)[k].register),
        ) == index
    ||| register_local(CARRY_FLAG_ID) <= index <= register_local(OVERFLOW_FLAG_ID)
}

/// The lowering of an instruction that does not call writes no local but those of the
/// registers the instruction writes and those of the flags: what it leaves untouched is
/// what the register analysis takes to be preserved.
pub proof fn lemma_lowering_writes_only_written_registers(
    i: Instruction,
    ctx: RoutineContext,
    address: u64,
)
    requires
        !is_call(i),
    ensures
        forall|k: int|
            0 <= k < lowering(i, ctx, address).len() ==> (written_local(
                #[trigger] lowering(i, ctx, address)[k],
            ) matches Some(index) ==> local_of_written_register(i, index)),
{
    let l = lowering(i, ctx, address);
    let w = registers_written_by(i);
    assert forall|k: int| 0 <= k < l.len() implies (written_local(#[trigger] l[k]) matches Some(
        index,
    ) ==> local_of_written_register(i, index)) by {
        match i {
            Instruction::AddSubtract { destination, .. } => {
                if k == 0 && destination != Register::XZR {
                    assert(register_id(w[0].register) == register_id(destination));
                }
            },
            Instruction::FormPCRelativeAddress { destination, .. } => {
                assert(register_id(w[0].register) == register_id(destination));
            },
            Instruction::LoadStoreRegister { address: base, offset, op, size, value } => {
                if k == 0 {
                    if !(op is Store) {
                        let last = w.len() - 1;
                        assert(register_id(w[last].register) == register_id(value));
                    }
                } else {
                    assert(register_id(w[0].register) == register_id(base));
                }
            },
            Instruction::LogicalImmediate { destination, .. } => {
                if k == 0 {
                    assert(register_id(w[0].register) == register_id(destination));
                }
            },
            Instruction::LogicalShiftedRegister { destination, .. } => {
                if k == 0 {
                    assert(register_id(w[0].register) == register_id(destination));
                }
            },
            Instruction::MoveWide { destination, .. } => {
                assert(register_id(w[0].register) == register_id(destination));
            },
            _ => {},
        }
    }
}


/// The zero register reads as zero at either width, and writes to it are discarded.
pub proof fn lemma_zero_register(width: Width, value: Expression)
    ensures
        register_read(register_id(Register::XZR), width) == (match width {
            Width::W32 => c32(0),
            Width::W64 => c64(0),
        }),
        register_write(register_id(Register::XZR), width, value) == Expression::Nop,
{
}

/// Any other register is written and read through one local: a write of its value sets
/// the local a read at the local's own width gets.
pub proof fn lemma_register_round_trip(register: Register, value: Expression)
    requires
        register != Register::XZR,
    ensures
        ({
            let id = register_id(register);
            let width = if is_flag_id(id) {
                Width::W32
            } else {
                Width::W64
            };
            &&& register_write(id, width, value) == (Expression::LocalSet {
                index: register_local(id),
                value: Box::new(value),
            })
            &&& register_read(id, width) == (Expression::LocalGet { index: register_local(id) })
        }),
{
}


/// The value of the register identified by `register` at `width` when the locals hold
/// `locals`: zero for the zero register, else its local, cut to 32 bits at that width.
pub open spec fn register_value(register: u32, width: Width, locals: Map<u32, u64>) -> u64 {
    if register == ZERO_REGISTER_ID {
        0
    } else {
        match width {
            Width::W64 => locals[register_local(register)],
            Width::W32 => wrap32(locals[register_local(register)] as int),
        }
    }
}

/// What an addition or subtraction of the value `a` and the immediate `imm` gives at
/// the width of `variant`.
pub open spec fn add_sub_value(op: AddSubtractOp, variant: SizeVariant, a: u64, imm: u64) -> u64 {
    match (op, variant) {
        (AddSubtractOp::Add, SizeVariant::Reg64) => wrap64(a + imm),
        (AddSubtractOp::Subtract, SizeVariant::Reg64) => wrap64(a - imm),
        (AddSubtractOp::Add, SizeVariant::Reg32) => wrap32(a as int % two_32() + (imm as u32) as int),
        (AddSubtractOp::Subtract, SizeVariant::Reg32) => wrap32(a as int % two_32() - (imm as u32) as int),
    }
}

/// Reading a general register gives its value.
proof fn lemma_read_value(register: u32, width: Width, locals: Map<u32, u64>)
    requires
        !is_flag_id(register),
        register != ZERO_REGISTER_ID ==> locals.contains_key(register_local(register)),
    ensures
        crate::module::eval::eval(register_read(register, width), locals) == Some(
            register_value(register, width, locals),
        ),
{
    if register != ZERO_REGISTER_ID {
        let get = Expression::LocalGet { index: register_local(register) };
        assert(crate::module::eval::eval(get, locals) == Some(locals[register_local(register)]));
        if width == Width::W32 {
            assert(crate::module::eval::eval(un(UnaryOp::WrapInt64, get), locals) == Some(
                wrap32(locals[register_local(register)] as int),
            ));
        }
    }
}

/// Running the lowering of an addition or subtraction of an immediate that does not set
/// the flags stores in the destination's local the sum or difference of the first
/// operand's value and the immediate, at the instruction's width (zero-extended from
/// 32 bits), and changes no other local; a zero-register destination changes nothing.
#[verifier::spinoff_prover]
#[verifier::rlimit(50)]
pub proof fn lemma_add_sub_immediate_effect(
    destination: Register,
    op: AddSubtractOp,
    operand1: Register,
    imm: u64,
    variant: SizeVariant,
    locals: Map<u32, u64>,
)
    requires
        register_id(operand1) != ZERO_REGISTER_ID ==> locals.contains_key(
            register_local(register_id(operand1)),
        ),
    ensures
        run(
            add_sub_lowering(destination, op, false, operand1, AddSubtractRightOperand::Immediate(imm), variant),
            locals,
        ) == Some(
            if register_id(destination) == ZERO_REGISTER_ID {
                locals
            } else {
                locals.insert(
                    register_local(register_id(destination)),
                    add_sub_value(op, variant, register_value(register_id(operand1), width_of(variant), locals), imm),
                )
            },
        ),
{
    lemma_id_bound_spec(operand1);
    lemma_id_bound_spec(destination);
    let es = add_sub_lowering(destination, op, false, operand1, AddSubtractRightOperand::Immediate(imm), variant);
    assert(es.len() == 1);
    assert(es.drop_last() =~= Seq::<Expression>::empty());
    let w = width_of(variant);
    let read = register_read(register_id(operand1), w);
    let v = register_value(register_id(operand1), w, locals);
    lemma_read_value(register_id(operand1), w, locals);
    let constant = unsigned_const(variant, imm);
    let result = bin(add_sub_op(op, variant), read, constant);
    let sum = add_sub_value(op, variant, v, imm);
    match variant {
        SizeVariant::Reg32 => {
            assert(v < two_32());
            let k = (imm as u32) as u64;
            assert(crate::module::eval::eval(constant, locals) == Some(k));
            assert(k as int % two_32() == k as int);
            assert(v as int % two_32() == v as int);
            assert(crate::module::eval::eval(result, locals) == Some(sum));
            assert(sum < two_32());
            assert(crate::module::eval::eval(un(UnaryOp::ExtendUInt32, result), locals) == Some(sum));
            if register_id(destination) != ZERO_REGISTER_ID {
                assert(es[0] == Expression::LocalSet {
                    index: register_local(register_id(destination)),
                    value: Box::new(un(UnaryOp::ExtendUInt32, result)),
                });
                assert(crate::module::eval::step(es[0], locals) == Some(
                    locals.insert(register_local(register_id(destination)), sum),
                ));
            } else {
                assert(es[0] == Expression::Nop);
            }
            assert(es.last() == es[0]);
            assert(run(es.drop_last(), locals) == Some(locals));
            assert(run(es, locals) == crate::module::eval::step(es[0], locals));
        },
        SizeVariant::Reg64 => {
            assert(crate::module::eval::eval(constant, locals) == Some(imm));
            assert(crate::module::eval::eval(result, locals) == Some(sum));
        },
    }
}

proof fn lemma_id_bound_spec(r: Register)
    ensures
        register_id(r) < 70,
        !is_flag_id(register_id(r)),
{
}


/// A compare and branch is taken exactly when its register is zero (CBZ) or nonzero
/// (CBNZ): its condition evaluates to 1 when the register's value at the instruction's
/// width being zero agrees with `branch_if_zero`, and to 0 otherwise.
pub proof fn lemma_compare_and_branch_taken(
    branch_if_zero: bool,
    register: Register,
    target: i64,
    variant: SizeVariant,
    locals: Map<u32, u64>,
)
    requires
        register_id(register) != ZERO_REGISTER_ID ==> locals.contains_key(
            register_local(register_id(register)),
        ),
    ensures
        crate::module::eval::eval(
            branch_condition_of(Instruction::CompareAndBranch { branch_if_zero, register, target, variant })->0,
            locals,
        ) == Some(
            if (register_value(register_id(register), width_of(variant), locals) == 0) == branch_if_zero {
                1u64
            } else {
                0u64
            },
        ),
{
    lemma_id_bound_spec(register);
    let w = width_of(variant);
    lemma_read_value(register_id(register), w, locals);
    let v = register_value(register_id(register), w, locals);
    let read = register_read(register_id(register), w);
    let zero = zero_of(variant);
    assert(crate::module::eval::eval(zero, locals) == Some(0u64));
    match variant {
        SizeVariant::Reg32 => {
            assert(v < two_32());
            assert(wrap32(v as int) == v);
            assert(wrap32(0) == 0);
        },
        SizeVariant::Reg64 => {},
    }
}

/// Every branch that has a condition (B.cond, CBZ, CBNZ, TBZ, TBNZ) is a conditional
/// jump, and the only unconditional jump is an unconditional B to a relative address;
/// a jump's target lies `4 * offset` bytes from the branch.
pub proof fn lemma_conditional_branches_are_conditional_jumps(i: Instruction, address: u64)
    ensures
        branch_condition_of(i) is Some ==> branch_kind_of(i, address) matches BranchKind::Jump {
            conditional: true,
            ..
        },
        (branch_kind_of(i, address) matches BranchKind::Jump { conditional: false, .. }) <==> (
        i matches Instruction::UnconditionalBranch {
            link: false,
            target: BranchTarget::RelativeInstructionOffset(_),
        }),
        (branch_kind_of(i, address) matches BranchKind::Jump { conditional: true, .. }) ==> branch_condition_of(i) is Some,
        (i is BranchConditionally || i is CompareAndBranch || i is TestBitAndBranch) ==> (branch_kind_of(
            i,
            address,
        ) matches BranchKind::Jump { conditional: true, .. }),
        i matches Instruction::BranchConditionally { target, .. } ==> branch_kind_of(i, address)
            == (BranchKind::Jump {
            conditional: true,
            target_address: ((address + 4 * target) % 0x1_0000_0000_0000_0000) as u64,
        }),
        i matches Instruction::CompareAndBranch { target, .. } ==> branch_kind_of(i, address)
            == (BranchKind::Jump {
            conditional: true,
            target_address: ((address + 4 * target) % 0x1_0000_0000_0000_0000) as u64,
        }),
        i matches Instruction::TestBitAndBranch { target, .. } ==> branch_kind_of(i, address)
            == (BranchKind::Jump {
            conditional: true,
            target_address: ((address + 4 * target) % 0x1_0000_0000_0000_0000) as u64,
        }),
        i matches Instruction::UnconditionalBranch {
            link: false,
            target: BranchTarget::RelativeInstructionOffset(offset),
        } ==> branch_kind_of(i, address) == (BranchKind::Jump {
            conditional: false,
            target_address: ((address + 4 * offset) % 0x1_0000_0000_0000_0000) as u64,
        }),
        i matches Instruction::UnconditionalBranch { link: true, .. } ==> branch_kind_of(i, address)
            == BranchKind::Call,
        i is Return ==> branch_kind_of(i, address) == BranchKind::Return,
{
}


/// The value of the flag identified by `flag` when the locals hold `locals`.
pub open spec fn flag_value(flag: u32, locals: Map<u32, u64>) -> u64 {
    locals[register_local(flag)]
}

/// A conditional branch on EQ is taken when the zero flag is set, on NE when it is
/// clear, on LT when the negative and overflow flags differ, and on GT when the zero
/// flag is clear and the negative and overflow flags agree; with flags holding 0 or 1,
/// its condition evaluates to 1 exactly then and to 0 otherwise.
pub proof fn lemma_condition_taken(condition: Condition, locals: Map<u32, u64>)
    requires
        locals.contains_key(register_local(ZERO_FLAG_ID)),
        locals.contains_key(register_local(NEGATIVE_FLAG_ID)),
        locals.contains_key(register_local(OVERFLOW_FLAG_ID)),
        flag_value(ZERO_FLAG_ID, locals) <= 1,
        flag_value(NEGATIVE_FLAG_ID, locals) <= 1,
        flag_value(OVERFLOW_FLAG_ID, locals) <= 1,
    ensures
        ({
            let z = flag_value(ZERO_FLAG_ID, locals);
            let n = flag_value(NEGATIVE_FLAG_ID, locals);
            let v = flag_value(OVERFLOW_FLAG_ID, locals);
            let taken = crate::module::eval::eval(condition_expression(condition), locals);
            &&& condition == Condition::EQ ==> taken == Some(if z == 1 { 1u64 } else { 0u64 })
            &&& condition == Condition::NE ==> taken == Some(if z == 0 { 1u64 } else { 0u64 })
            &&& condition == Condition::LT ==> taken == Some(if n != v { 1u64 } else { 0u64 })
            &&& condition == Condition::GT ==> taken == Some(if z == 0 && n == v { 1u64 } else { 0u64 })
        }),
{
    let z = flag_value(ZERO_FLAG_ID, locals);
    let n = flag_value(NEGATIVE_FLAG_ID, locals);
    let v = flag_value(OVERFLOW_FLAG_ID, locals);
    let gz = Expression::LocalGet { index: register_local(ZERO_FLAG_ID) };
    let gn = Expression::LocalGet { index: register_local(NEGATIVE_FLAG_ID) };
    let gv = Expression::LocalGet { index: register_local(OVERFLOW_FLAG_ID) };
    assert(register_read(ZERO_FLAG_ID, Width::W32) == gz);
    assert(register_read(NEGATIVE_FLAG_ID, Width::W32) == gn);
    assert(register_read(OVERFLOW_FLAG_ID, Width::W32) == gv);
    assert(crate::module::eval::eval(gz, locals) == Some(z));
    assert(crate::module::eval::eval(gn, locals) == Some(n));
    assert(crate::module::eval::eval(gv, locals) == Some(v));
    assert(wrap32(z as int) == z && wrap32(n as int) == n && wrap32(v as int) == v);
    let a: u64 = if z == 0 { 1 } else { 0 };
    let b: u64 = if n == v { 1 } else { 0 };
    assert(crate::module::eval::eval(un(UnaryOp::EqZInt32, gz), locals) == Some(a));
    assert(crate::module::eval::eval(bin(BinaryOp::EqInt32, gn, gv), locals) == Some(b));
    assert((a & b) == (if a == 1 && b == 1 { 1u64 } else { 0u64 })) by (bit_vector)
        requires
            a <= 1,
            b <= 1,
    ;
    assert(wrap32((a & b) as int) == (a & b));
}

} // verus!
