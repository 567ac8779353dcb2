use vstd::prelude::*;
use crate::aw_core::analysis::{find_address, index_of};
use crate::aw_core::translator::RoutineContext;
use crate::module::expression::{
    BinaryOp, CallTarget, Expression, Literal, expression_list, list_of,
};
use crate::module::memory::{LoadVariant, StoreVariant};

verus! {

/// The zero register `x0`.
pub const ZERO_REGISTER: usize = 0;

/// The return address register `ra` (`x1`).
pub const RETURN_ADDRESS_REGISTER: usize = 1;

/// The stack pointer `sp` (`x2`).
pub const STACK_POINTER_REGISTER: usize = 2;

/// The first argument and result register `a0` (`x10`).
pub const A0: usize = 10;

/// The system call number register `a7` (`x17`).
pub const A7: usize = 17;

/// The operations of the base integer instruction set.
#[derive(Debug, Clone, Copy, PartialEq, Eq)]
pub enum BaseOpcode {
    LUI, AUIPC, JAL, JALR, BEQ, BNE, BLT, BGE, BLTU, BGEU, LB, LH, LW, LBU, LHU, SB, SH, SW,
    ADDI, SLTI, SLTIU, XORI, ORI, ANDI, SLLI, SRLI, SRAI, ADD, SUB, SLL, SLT, SLTU, XOR, SRL,
    SRA, OR, AND, ECALL, EBREAK, LWU, LD, SD, ADDIW, SLLIW, SRLIW, SRAIW, ADDW, SUBW, SLLW,
    SRLW, SRAW,
}

/// The operations of the compressed instruction set.
#[derive(Debug, Clone, Copy, PartialEq, Eq)]
pub enum CompressedOpcode {
    ADDI4SPN, LW, SW, NOP, ADDI, JAL, LI, ADDI16SP, LUI, SRLI, SRAI, ANDI, SUB, XOR, OR, AND,
    J, BEQZ, BNEZ, SLLI, LWSP, JR, MV, EBREAK, JALR, ADD, SWSP, LD, SD, ADDIW, SUBW, ADDW, LDSP,
    SDSP,
}

/// The operation of an instruction: a base or compressed one, or one of another
/// extension, which the translator does not handle.
#[derive(Debug, Clone, Copy, PartialEq, Eq)]
pub enum Opcode {
    BaseI(BaseOpcode),
    C(CompressedOpcode),
    Other,
}

/// A decoded RISC-V instruction: its operation, register operands and immediate.
#[derive(Debug, Clone, Copy, PartialEq, Eq)]
pub struct RiscVInstruction {
    pub opc: Opcode,
    pub rd: Option<usize>,
    pub rs1: Option<usize>,
    pub rs2: Option<usize>,
    pub imm: Option<i32>,
    pub is_compressed: bool,
}

/// What the analysis learns about an instruction for its translation: the routine a
/// call goes to.
#[derive(Debug, Clone, Copy, PartialEq, Eq)]
pub struct RiscVInstructionMetadata {
    pub call_routine_index: Option<usize>,
}

/// How a RISC-V instruction affects control flow.
#[derive(Debug, Clone, Copy, PartialEq, Eq)]
pub enum RiscVBranchKind {
    NoBranch,
    Jump { conditional: bool, target_address: u64 },
    Call { target_address: u64 },
    Return,
    Unknown,
}

/// The local that holds register `x<register>`: `x1` is local 0 (`x0` has none).
pub fn register_to_local_index(register: usize) -> (r: u32)
    requires
        1 <= register <= u32::MAX,
    ensures
        r == register - 1,
{
    (register as u32) - 1
}

/// The base instruction a compressed instruction with operation `c` and operands `i`
/// stands for: its operation, `rd`, `rs1`, `rs2` and immediate.
pub open spec fn expansion(c: CompressedOpcode, i: RiscVInstruction) -> (
    BaseOpcode,
    Option<usize>,
    Option<usize>,
    Option<usize>,
    Option<i32>,
) {
    let sp = Some(STACK_POINTER_REGISTER);
    let zero = Some(ZERO_REGISTER);
    match c {
        CompressedOpcode::ADDI4SPN => (BaseOpcode::ADDI, i.rd, sp, None, i.imm),
        CompressedOpcode::LW => (BaseOpcode::LW, i.rd, i.rs1, None, i.imm),
        CompressedOpcode::LD => (BaseOpcode::LD, i.rd, i.rs1, None, i.imm),
        CompressedOpcode::SW => (BaseOpcode::SW, None, i.rs1, i.rs2, i.imm),
        CompressedOpcode::SD => (BaseOpcode::SD, None, i.rs1, i.rs2, i.imm),
        CompressedOpcode::NOP => (BaseOpcode::ADDI, zero, zero, None, Some(0)),
        CompressedOpcode::ADDI => (BaseOpcode::ADDI, i.rd, i.rs1, None, i.imm),
        CompressedOpcode::ADDIW => (BaseOpcode::ADDIW, i.rd, i.rs1, None, i.imm),
        CompressedOpcode::JAL => (BaseOpcode::JAL, Some(RETURN_ADDRESS_REGISTER), None, None, i.imm),
        CompressedOpcode::LI => (BaseOpcode::ADDI, i.rd, zero, None, i.imm),
        CompressedOpcode::ADDI16SP => (BaseOpcode::ADDI, sp, sp, None, i.imm),
        CompressedOpcode::LUI => (BaseOpcode::LUI, i.rd, None, None, i.imm),
        CompressedOpcode::SRLI => (BaseOpcode::SRLI, i.rd, i.rd, None, i.imm),
        CompressedOpcode::SRAI => (BaseOpcode::SRAI, i.rd, i.rd, None, i.imm),
        CompressedOpcode::ANDI => (BaseOpcode::ANDI, i.rd, i.rd, None, i.imm),
        CompressedOpcode::SUB => (BaseOpcode::SUB, i.rd, i.rd, i.rs2, None),
        CompressedOpcode::XOR => (BaseOpcode::XOR, i.rd, i.rd, i.rs2, None),
        CompressedOpcode::OR => (BaseOpcode::OR, i.rd, i.rd, i.rs2, None),
        CompressedOpcode::AND => (BaseOpcode::AND, i.rd, i.rd, i.rs2, None),
        CompressedOpcode::SUBW => (BaseOpcode::SUBW, i.rd, i.rd, i.rs2, None),
        CompressedOpcode::ADDW => (BaseOpcode::ADDW, i.rd, i.rd, i.rs2, None),
        CompressedOpcode::J => (BaseOpcode::JAL, zero, None, None, i.imm),
        CompressedOpcode::BEQZ => (BaseOpcode::BEQ, None, i.rs1, zero, i.imm),
        CompressedOpcode::BNEZ => (BaseOpcode::BNE, None, i.rs1, zero, i.imm),
        CompressedOpcode::SLLI => (BaseOpcode::SLLI, i.rd, i.rd, None, i.imm),
        CompressedOpcode::LWSP => (BaseOpcode::LW, i.rd, sp, None, i.imm),
        CompressedOpcode::LDSP => (BaseOpcode::LD, i.rd, sp, None, i.imm),
        CompressedOpcode::JR => (BaseOpcode::JALR, zero, i.rs1, None, Some(0)),
        CompressedOpcode::MV => (BaseOpcode::ADD, i.rd, zero, i.rs2, None),
        CompressedOpcode::EBREAK => (BaseOpcode::EBREAK, None, None, None, None),
        CompressedOpcode::JALR => (BaseOpcode::JALR, Some(RETURN_ADDRESS_REGISTER), i.rs1, None, Some(0)),
        CompressedOpcode::ADD => (BaseOpcode::ADD, i.rd, i.rd, i.rs2, None),
        CompressedOpcode::SWSP => (BaseOpcode::SW, None, sp, i.rs2, i.imm),
        CompressedOpcode::SDSP => (BaseOpcode::SD, None, sp, i.rs2, i.imm),
    }
}

/// The full-size instruction a compressed instruction stands for; none for an
/// instruction that is not compressed.
pub open spec fn expanded(i: RiscVInstruction) -> Option<RiscVInstruction> {
    match i.opc {
        Opcode::C(c) => {
            let (opc, rd, rs1, rs2, imm) = expansion(c, i);
            Some(RiscVInstruction { opc: Opcode::BaseI(opc), rd, rs1, rs2, imm, is_compressed: false })
        },
        _ => None,
    }
}

/// The instruction `i` stands for: its expansion if it is compressed, else itself.
pub open spec fn effective(i: RiscVInstruction) -> RiscVInstruction {
    match expanded(i) {
        Some(e) => e,
        None => i,
    }
}

/// If `instr` is a compressed instruction, the equivalent full-size instruction; none
/// for an instruction that is not compressed.
pub fn expand_compressed(instr: &RiscVInstruction) -> (r: Option<RiscVInstruction>)
    ensures
        r == expanded(*instr),
{
    let c = match instr.opc {
        Opcode::C(c) => c,
        _ => {
            return None;
        },
    };
    let sp = Some(STACK_POINTER_REGISTER);
    let zero = Some(ZERO_REGISTER);
    let (opc, rd, rs1, rs2, imm) = match c {
        CompressedOpcode::ADDI4SPN => (BaseOpcode::ADDI, instr.rd, sp, None, instr.imm),
        CompressedOpcode::LW => (BaseOpcode::LW, instr.rd, instr.rs1, None, instr.imm),
        CompressedOpcode::LD => (BaseOpcode::LD, instr.rd, instr.rs1, None, instr.imm),
        CompressedOpcode::SW => (BaseOpcode::SW, None, instr.rs1, instr.rs2, instr.imm),
        CompressedOpcode::SD => (BaseOpcode::SD, None, instr.rs1, instr.rs2, instr.imm),
        CompressedOpcode::NOP => (BaseOpcode::ADDI, zero, zero, None, Some(0)),
        CompressedOpcode::ADDI => (BaseOpcode::ADDI, instr.rd, instr.rs1, None, instr.imm),
        CompressedOpcode::ADDIW => (BaseOpcode::ADDIW, instr.rd, instr.rs1, None, instr.imm),
        CompressedOpcode::JAL => (
            BaseOpcode::JAL,
            Some(RETURN_ADDRESS_REGISTER),
            None,
            None,
            instr.imm,
        ),
        CompressedOpcode::LI => (BaseOpcode::ADDI, instr.rd, zero, None, instr.imm),
        CompressedOpcode::ADDI16SP => (BaseOpcode::ADDI, sp, sp, None, instr.imm),
        CompressedOpcode::LUI => (BaseOpcode::LUI, instr.rd, None, None, instr.imm),
        CompressedOpcode::SRLI => (BaseOpcode::SRLI, instr.rd, instr.rd, None, instr.imm),
        CompressedOpcode::SRAI => (BaseOpcode::SRAI, instr.rd, instr.rd, None, instr.imm),
        CompressedOpcode::ANDI => (BaseOpcode::ANDI, instr.rd, instr.rd, None, instr.imm),
        CompressedOpcode::SUB => (BaseOpcode::SUB, instr.rd, instr.rd, instr.rs2, None),
        CompressedOpcode::XOR => (BaseOpcode::XOR, instr.rd, instr.rd, instr.rs2, None),
        CompressedOpcode::OR => (BaseOpcode::OR, instr.rd, instr.rd, instr.rs2, None),
        CompressedOpcode::AND => (BaseOpcode::AND, instr.rd, instr.rd, instr.rs2, None),
        CompressedOpcode::SUBW => (BaseOpcode::SUBW, instr.rd, instr.rd, instr.rs2, None),
        CompressedOpcode::ADDW => (BaseOpcode::ADDW, instr.rd, instr.rd, instr.rs2, None),
        CompressedOpcode::J => (BaseOpcode::JAL, zero, None, None, instr.imm),
        CompressedOpcode::BEQZ => (BaseOpcode::BEQ, None, instr.rs1, zero, instr.imm),
        CompressedOpcode::BNEZ => (BaseOpcode::BNE, None, instr.rs1, zero, instr.imm),
        CompressedOpcode::SLLI => (BaseOpcode::SLLI, instr.rd, instr.rd, None, instr.imm),
        CompressedOpcode::LWSP => (BaseOpcode::LW, instr.rd, sp, None, instr.imm),
        CompressedOpcode::LDSP => (BaseOpcode::LD, instr.rd, sp, None, instr.imm),
        CompressedOpcode::JR => (BaseOpcode::JALR, zero, instr.rs1, None, Some(0)),
        CompressedOpcode::MV => (BaseOpcode::ADD, instr.rd, zero, instr.rs2, None),
        CompressedOpcode::EBREAK => (BaseOpcode::EBREAK, None, None, None, None),
        CompressedOpcode::JALR => (
            BaseOpcode::JALR,
            Some(RETURN_ADDRESS_REGISTER),
            instr.rs1,
            None,
            Some(0),
        ),
        CompressedOpcode::ADD => (BaseOpcode::ADD, instr.rd, instr.rd, instr.rs2, None),
        CompressedOpcode::SWSP => (BaseOpcode::SW, None, sp, instr.rs2, instr.imm),
        CompressedOpcode::SDSP => (BaseOpcode::SD, None, sp, instr.rs2, instr.imm),
    };
    Some(RiscVInstruction { opc: Opcode::BaseI(opc), rd, rs1, rs2, imm, is_compressed: false })
}

impl RiscVInstruction {
    /// The size of the instruction in bytes: 2 when compressed, 4 otherwise.
    pub fn size(&self) -> (r: u64)
        ensures
            r == (if self.is_compressed {
                2u64
            } else {
                4u64
            }),
    {
        if self.is_compressed {
            2
        } else {
            4
        }
    }
}

/// The address `offset` bytes from `address`, wrapping around the address space.
pub open spec fn offset_address(address: u64, offset: i32) -> u64 {
    vstd::wrapping::u64_specs::wrapping_add_signed(address, offset as i64)
}

/// Whether `i` is an AUIPC whose destination is `register`.
pub open spec fn is_auipc_into(i: RiscVInstruction, register: usize) -> bool {
    i.opc == Opcode::BaseI(BaseOpcode::AUIPC) && i.rd == Some(register)
}

/// The target of the JALR `i` at `address` whose base register an AUIPC `prev` set
/// right before it: the AUIPC's address plus the JALR's offset.
pub open spec fn auipc_target(i: RiscVInstruction, prev: RiscVInstruction, address: u64) -> u64 {
    offset_address(
        vstd::wrapping::u64_specs::wrapping_sub(
            address,
            if prev.is_compressed {
                2u64
            } else {
                4u64
            },
        ),
        i.imm->0,
    )
}

/// Whether the operands that the branch analysis of `i` reads are present: the
/// immediate of a conditional branch, `rd` and the immediate of JAL, and `rd`, `rs1` and
/// the immediate of JALR.
pub open spec fn branch_operands_present(i: RiscVInstruction) -> bool {
    match i.opc {
        Opcode::BaseI(BaseOpcode::BEQ) | Opcode::BaseI(BaseOpcode::BNE) | Opcode::BaseI(
            BaseOpcode::BLT,
        ) | Opcode::BaseI(BaseOpcode::BGE) | Opcode::BaseI(BaseOpcode::BLTU) | Opcode::BaseI(
            BaseOpcode::BGEU,
        ) => i.imm is Some,
        Opcode::BaseI(BaseOpcode::JAL) => i.rd is Some && i.imm is Some,
        Opcode::BaseI(BaseOpcode::JALR) => i.rd is Some && i.rs1 is Some && i.imm is Some,
        _ => true,
    }
}

/// How the instruction `instruction` (already expanded) at `address` affects control
/// flow, with `prev` the instruction before it and `routines` the start addresses of the
/// program's routines: conditional branches jump conditionally; JAL jumps when it
/// discards the return address and calls when it keeps it in `ra`; JALR after an AUIPC
/// into its base register calls or jumps to the computed address, and `jalr x0, 0(ra)`
/// returns.
pub open spec fn branch_kind_of(
    i: RiscVInstruction,
    address: u64,
    prev: Option<RiscVInstruction>,
    routines: Seq<u64>,
) -> (RiscVBranchKind, Option<usize>) {
    match i.opc {
        Opcode::BaseI(BaseOpcode::BEQ) | Opcode::BaseI(BaseOpcode::BNE) | Opcode::BaseI(
            BaseOpcode::BLT,
        ) | Opcode::BaseI(BaseOpcode::BGE) | Opcode::BaseI(BaseOpcode::BLTU) | Opcode::BaseI(
            BaseOpcode::BGEU,
        ) => (
            RiscVBranchKind::Jump {
                conditional: true,
                target_address: offset_address(address, i.imm->0),
            },
            None,
        ),
        Opcode::BaseI(BaseOpcode::JAL) => {
            let target_address = offset_address(address, i.imm->0);
            if i.rd->0 == ZERO_REGISTER {
                (RiscVBranchKind::Jump { conditional: false, target_address }, None)
            } else if i.rd->0 == RETURN_ADDRESS_REGISTER {
                (RiscVBranchKind::Call { target_address }, index_of(routines, target_address))
            } else {
                (RiscVBranchKind::Unknown, None)
            }
        },
        Opcode::BaseI(BaseOpcode::JALR) => {
            let link = i.rd->0;
            let base = i.rs1->0;
            if link != RETURN_ADDRESS_REGISTER && link != ZERO_REGISTER {
                (RiscVBranchKind::Unknown, None)
            } else if prev matches Some(p) && is_auipc_into(p, base) {
                let target_address = auipc_target(i, prev->0, address);
                if link == ZERO_REGISTER {
                    (RiscVBranchKind::Jump { conditional: false, target_address }, None)
                } else {
                    (RiscVBranchKind::Call { target_address }, index_of(routines, target_address))
                }
            } else if link == ZERO_REGISTER && base == RETURN_ADDRESS_REGISTER && i.imm->0 == 0 {
                (RiscVBranchKind::Return, None)
            } else {
                (RiscVBranchKind::Unknown, None)
            }
        },
        _ => (RiscVBranchKind::NoBranch, None),
    }
}

/// Whether the branch analysis is defined on `i` (after expansion) at `address`: its
/// operands are present, and a call goes to the start of a routine.
pub open spec fn branch_analysable(
    i: RiscVInstruction,
    address: u64,
    prev: Option<RiscVInstruction>,
    routines: Seq<u64>,
) -> bool {
    &&& branch_operands_present(i)
    &&& branch_kind_of(i, address, prev, routines).0 is Call ==> branch_kind_of(
        i,
        address,
        prev,
        routines,
    ).1 is Some
}

impl RiscVInstruction {
    /// How the instruction at `address` affects control flow, given the instruction
    /// before it and the start addresses of the program's routines, with the routine a
    /// call goes to.
    pub fn branch_kind(
        &self,
        address: u64,
        prev_instruction: Option<&RiscVInstruction>,
        routine_addresses: &[u64],
    ) -> (r: (RiscVBranchKind, RiscVInstructionMetadata))
        requires
            branch_analysable(
                effective(*self),
                address,
                match prev_instruction {
                    Some(p) => Some(*p),
                    None => None,
                },
                routine_addresses@,
            ),
        ensures
            (r.0, r.1.call_routine_index) == branch_kind_of(
                effective(*self),
                address,
                match prev_instruction {
                    Some(p) => Some(*p),
                    None => None,
                },
                routine_addresses@,
            ),
    {
        let expanded_instruction = expand_compressed(self);
        let instruction = match expanded_instruction {
            Some(e) => e,
            None => *self,
        };
        let none = RiscVInstructionMetadata { call_routine_index: None };
        match instruction.opc {
            Opcode::BaseI(BaseOpcode::BEQ) | Opcode::BaseI(BaseOpcode::BNE) | Opcode::BaseI(
                BaseOpcode::BLT,
            ) | Opcode::BaseI(BaseOpcode::BGE) | Opcode::BaseI(BaseOpcode::BLTU)
            | Opcode::BaseI(BaseOpcode::BGEU) => {
                let target_address = address.wrapping_add_signed(instruction.imm.unwrap() as i64);
                (RiscVBranchKind::Jump { conditional: true, target_address }, none)
            },
            Opcode::BaseI(BaseOpcode::JAL) => {
                let target_address = address.wrapping_add_signed(instruction.imm.unwrap() as i64);
                let link = instruction.rd.unwrap();
                if link == ZERO_REGISTER {
                    (RiscVBranchKind::Jump { conditional: false, target_address }, none)
                } else if link == RETURN_ADDRESS_REGISTER {
                    let target_routine_index = find_address(routine_addresses, target_address);
                    (
                        RiscVBranchKind::Call { target_address },
                        RiscVInstructionMetadata { call_routine_index: target_routine_index },
                    )
                } else {
                    (RiscVBranchKind::Unknown, none)
                }
            },
            Opcode::BaseI(BaseOpcode::JALR) => {
                let link = instruction.rd.unwrap();
                let base = instruction.rs1.unwrap();
                if link != RETURN_ADDRESS_REGISTER && link != ZERO_REGISTER {
                    return (RiscVBranchKind::Unknown, none);
                }
                let after_auipc = match prev_instruction {
                    Some(prev) => match (prev.opc, prev.rd) {
                        (Opcode::BaseI(BaseOpcode::AUIPC), Some(prev_rd)) => prev_rd == base,
                        _ => false,
                    },
                    None => false,
                };
                if after_auipc {
                    let prev = prev_instruction.unwrap();
                    let target_address = address.wrapping_sub(prev.size()).wrapping_add_signed(
                        instruction.imm.unwrap() as i64,
                    );
                    if link == ZERO_REGISTER {
                        (RiscVBranchKind::Jump { conditional: false, target_address }, none)
                    } else {
                        let target_routine_index = find_address(routine_addresses, target_address);
                        (
                            RiscVBranchKind::Call { target_address },
                            RiscVInstructionMetadata { call_routine_index: target_routine_index },
                        )
                    }
                } else if link == ZERO_REGISTER && base == RETURN_ADDRESS_REGISTER
                    && instruction.imm.unwrap() == 0 {
                    (RiscVBranchKind::Return, none)
                } else {
                    (RiscVBranchKind::Unknown, none)
                }
            },
            _ => (RiscVBranchKind::NoBranch, none),
        }
    }
}


/// Reading register `x<register>`: zero for `x0`, its local otherwise.
pub open spec fn riscv_register_read(register: usize) -> Expression {
    if register == ZERO_REGISTER {
        Expression::Const(Literal::I64(0))
    } else {
        Expression::LocalGet { index: (register - 1) as u32 }
    }
}

/// Writing `value` to register `x<register>`: nothing for `x0`, its local otherwise.
pub open spec fn riscv_register_write(register: usize, value: Expression) -> Expression {
    if register == ZERO_REGISTER {
        Expression::Nop
    } else {
        Expression::LocalSet { index: (register - 1) as u32, value: Box::new(value) }
    }
}

/// Reads register `x<register>`.
pub fn read_register(register: usize) -> (r: Expression)
    requires
        register < 32,
    ensures
        r == riscv_register_read(register),
{
    if register == ZERO_REGISTER {
        Expression::Const(Literal::I64(0))
    } else {
        Expression::LocalGet { index: register_to_local_index(register) }
    }
}

/// Writes `value` to register `x<register>`.
pub fn write_register(register: usize, value: Expression) -> (r: Expression)
    requires
        register < 32,
    ensures
        r == riscv_register_write(register, value),
{
    if register == ZERO_REGISTER {
        Expression::Nop
    } else {
        Expression::LocalSet { index: register_to_local_index(register), value: Box::new(value) }
    }
}

/// `base + imm` at 64 bits, the immediate sign extended.
pub open spec fn offset_from(base: Expression, imm: i32) -> Expression {
    Expression::Binary {
        op: BinaryOp::AddInt64,
        left: Box::new(base),
        right: Box::new(Expression::Const(Literal::I64(imm as i64 as u64))),
    }
}

/// The reads of the registers `registers`, in order.
pub open spec fn riscv_reads(registers: Seq<usize>) -> Seq<Expression> {
    Seq::new(registers.len(), |k: int| riscv_register_read(registers[k]))
}

/// The system call registers, in the order the host takes them: `a7`, then `a0`..`a5`.
pub open spec fn environment_call_registers() -> Seq<usize> {
    seq![A7, 10usize, 11usize, 12usize, 13usize, 14usize, 15usize]
}

/// A call of routine `routine_index`, with the registers `ctx` names as arguments, whose
/// results go back to those registers, as the Arm lowering does for BL.
pub open spec fn riscv_call_lowering(ctx: RoutineContext, routine_index: usize) -> Seq<Expression> {
    let registers = ctx.return_registers@.map_values(|r: u32| r as usize);
    seq![
        Expression::LocalSet {
            index: ctx.func_return_scratch_local_index,
            value: Box::new(
                Expression::Call {
                    target: CallTarget::Routine(routine_index),
                    arguments: list_of(riscv_reads(registers)),
                },
            ),
        },
    ] + Seq::new(
        registers.len(),
        |k: int|
            riscv_register_write(
                registers[k],
                Expression::TupleExtract {
                    tuple: Box::new(
                        Expression::LocalGet { index: ctx.func_return_scratch_local_index },
                    ),
                    index: k as u32,
                },
            ),
    )
}

/// The return of a routine: the values of the registers `ctx` names.
pub open spec fn riscv_return(ctx: RoutineContext) -> Expression {
    Expression::Return(
        Box::new(
            Expression::Tuple(
                list_of(riscv_reads(ctx.return_registers@.map_values(|r: u32| r as usize))),
            ),
        ),
    )
}

/// Whether the registers of `i` are registers and the operands its lowering reads are
/// present.
pub open spec fn riscv_lowerable(i: RiscVInstruction) -> bool {
    let reg_ok = |r: Option<usize>| r matches Some(n) ==> n < 32;
    &&& reg_ok(i.rd) && reg_ok(i.rs1) && reg_ok(i.rs2)
    &&& match i.opc {
        Opcode::BaseI(BaseOpcode::ADD) => i.rd is Some && i.rs1 is Some && i.rs2 is Some,
        Opcode::BaseI(BaseOpcode::ADDI) | Opcode::BaseI(BaseOpcode::LD) | Opcode::BaseI(
            BaseOpcode::LW,
        ) => i.rd is Some && i.rs1 is Some && i.imm is Some,
        Opcode::BaseI(BaseOpcode::SD) | Opcode::BaseI(BaseOpcode::SW) => i.rs1 is Some
            && i.rs2 is Some && i.imm is Some,
        Opcode::BaseI(BaseOpcode::AUIPC) => i.rd is Some && i.imm is Some,
        _ => true,
    }
}

/// The expressions the (expanded) instruction `i` at `address` is lowered to; a call the
/// analysis resolved to a routine becomes a call of it.
pub open spec fn riscv_lowering(
    i: RiscVInstruction,
    call_routine_index: Option<usize>,
    ctx: RoutineContext,
    address: u64,
) -> Seq<Expression> {
    match call_routine_index {
        Some(routine_index) => riscv_call_lowering(ctx, routine_index),
        None => match i.opc {
            Opcode::BaseI(BaseOpcode::ADD) => seq![
                riscv_register_write(
                    i.rd->0,
                    Expression::Binary {
                        op: BinaryOp::AddInt64,
                        left: Box::new(riscv_register_read(i.rs1->0)),
                        right: Box::new(riscv_register_read(i.rs2->0)),
                    },
                ),
            ],
            Opcode::BaseI(BaseOpcode::ADDI) => seq![
                riscv_register_write(i.rd->0, offset_from(riscv_register_read(i.rs1->0), i.imm->0)),
            ],
            Opcode::BaseI(BaseOpcode::LD) | Opcode::BaseI(BaseOpcode::LW) => seq![
                riscv_register_write(
                    i.rd->0,
                    Expression::Load {
                        variant: if i.opc == Opcode::BaseI(BaseOpcode::LD) {
                            LoadVariant::I64
                        } else {
                            LoadVariant::I64L32 { signed: true }
                        },
                        address: Box::new(offset_from(riscv_register_read(i.rs1->0), i.imm->0)),
                        offset: 0,
                        align: 4,
                    },
                ),
            ],
            Opcode::BaseI(BaseOpcode::SD) | Opcode::BaseI(BaseOpcode::SW) => seq![
                Expression::Store {
                    variant: if i.opc == Opcode::BaseI(BaseOpcode::SW) {
                        StoreVariant::I64L32
                    } else {
                        StoreVariant::I64
                    },
                    value: Box::new(riscv_register_read(i.rs2->0)),
                    address: Box::new(offset_from(riscv_register_read(i.rs1->0), i.imm->0)),
                    offset: 0,
                    align: 4,
                },
            ],
            Opcode::BaseI(BaseOpcode::JALR) => if i.rd == Some(ZERO_REGISTER) && i.rs1 == Some(
                RETURN_ADDRESS_REGISTER,
            ) && i.imm == Some(0i32) {
                seq![riscv_return(ctx)]
            } else {
                Seq::empty()
            },
            Opcode::BaseI(BaseOpcode::ECALL) => seq![
                riscv_register_write(
                    A0,
                    Expression::Call {
                        target: CallTarget::EnvironmentCall,
                        arguments: list_of(riscv_reads(environment_call_registers())),
                    },
                ),
            ],
            Opcode::BaseI(BaseOpcode::AUIPC) => seq![
                riscv_register_write(
                    i.rd->0,
                    offset_from(Expression::Const(Literal::I64(address)), i.imm->0),
                ),
            ],
            _ => Seq::empty(),
        },
    }
}

/// Whether the registers `ctx` names are RISC-V registers and few enough to number.
pub open spec fn riscv_context_ok(ctx: RoutineContext) -> bool {
    &&& ctx.return_registers.len() <= u32::MAX
    &&& forall|k: int| 0 <= k < ctx.return_registers.len() ==> #[trigger] ctx.return_registers[k] < 32
}

/// Reads the registers `registers`.
fn read_registers(registers: &Vec<u32>) -> (r: Vec<Expression>)
    requires
        forall|k: int| 0 <= k < registers.len() ==> #[trigger] registers[k] < 32,
    ensures
        r@ == riscv_reads(registers@.map_values(|x: u32| x as usize)),
{
    let mut out: Vec<Expression> = Vec::new();
    let mut i: usize = 0;
    while i < registers.len()
        invariant
            i <= registers.len(),
            forall|k: int| 0 <= k < registers.len() ==> #[trigger] registers[k] < 32,
            out.len() == i,
            forall|k: int|
                0 <= k < i ==> #[trigger] out[k] == riscv_register_read(registers[k] as usize),
        decreases registers.len() - i,
    {
        out.push(read_register(registers[i] as usize));
        i = i + 1;
    }
    proof {
        assert(out@ =~= riscv_reads(registers@.map_values(|x: u32| x as usize)));
    }
    out
}

fn lower_riscv_call(ctx: &RoutineContext, routine_index: usize) -> (r: Vec<Expression>)
    requires
        riscv_context_ok(*ctx),
    ensures
        r@ == riscv_call_lowering(*ctx, routine_index),
{
    let ghost registers = ctx.return_registers@.map_values(|x: u32| x as usize);
    let mut out: Vec<Expression> = Vec::new();
    out.push(
        Expression::LocalSet {
            index: ctx.func_return_scratch_local_index,
            value: Box::new(
                Expression::Call {
                    target: CallTarget::Routine(routine_index),
                    arguments: expression_list(read_registers(&ctx.return_registers)),
                },
            ),
        },
    );
    let mut i: usize = 0;
    while i < ctx.return_registers.len()
        invariant
            i <= ctx.return_registers.len(),
            riscv_context_ok(*ctx),
            registers == ctx.return_registers@.map_values(|x: u32| x as usize),
            out.len() == i + 1,
            out@[0] == riscv_call_lowering(*ctx, routine_index)[0],
            forall|k: int|
                0 <= k < i ==> #[trigger] out@[k + 1] == riscv_call_lowering(
                    *ctx,
                    routine_index,
                )[k + 1],
        decreases ctx.return_registers.len() - i,
    {
        let element = Expression::TupleExtract {
            tuple: Box::new(Expression::LocalGet { index: ctx.func_return_scratch_local_index }),
            index: i as u32,
        };
        out.push(write_register(ctx.return_registers[i] as usize, element));
        i = i + 1;
    }
    proof {
        let expected = riscv_call_lowering(*ctx, routine_index);
        assert forall|j: int| 0 <= j < out@.len() implies out@[j] == expected[j] by {
            if j > 0 {
                assert(out@[(j - 1) + 1] == expected[(j - 1) + 1]);
            }
        }
        assert(out@ =~= expected);
    }
    out
}

fn offset_expression(base: Expression, imm: i32) -> (r: Expression)
    ensures
        r == offset_from(base, imm),
{
    Expression::Binary {
        op: BinaryOp::AddInt64,
        left: Box::new(base),
        right: Box::new(Expression::Const(Literal::I64(imm as i64 as u64))),
    }
}

impl RiscVInstruction {
    /// The expressions the instruction at `current_address` is lowered to, appended to
    /// `block_exprs`; a compressed instruction is lowered as the instruction it stands for.
    pub fn translate(
        &self,
        ctx: &RoutineContext,
        metadata: &RiscVInstructionMetadata,
        current_address: u64,
        block_exprs: &mut Vec<Expression>,
    )
        requires
            riscv_lowerable(effective(*self)),
            riscv_context_ok(*ctx),
        ensures
            final(block_exprs)@ == old(block_exprs)@ + riscv_lowering(
                effective(*self),
                metadata.call_routine_index,
                *ctx,
                current_address,
            ),
    {
        let expanded_instruction = expand_compressed(self);
        let instr = match expanded_instruction {
            Some(e) => e,
            None => *self,
        };
        if let Some(routine_index) = metadata.call_routine_index {
            let mut lowered = lower_riscv_call(ctx, routine_index);
            block_exprs.append(&mut lowered);
            return;
        }
        let mut out: Vec<Expression> = Vec::new();
        match instr.opc {
            Opcode::BaseI(BaseOpcode::ADD) => {
                let sum = Expression::Binary {
                    op: BinaryOp::AddInt64,
                    left: Box::new(read_register(instr.rs1.unwrap())),
                    right: Box::new(read_register(instr.rs2.unwrap())),
                };
                out.push(write_register(instr.rd.unwrap(), sum));
            },
            Opcode::BaseI(BaseOpcode::ADDI) => {
                let sum = offset_expression(read_register(instr.rs1.unwrap()), instr.imm.unwrap());
                out.push(write_register(instr.rd.unwrap(), sum));
            },
            Opcode::BaseI(BaseOpcode::LD) | Opcode::BaseI(BaseOpcode::LW) => {
                let variant = match instr.opc {
                    Opcode::BaseI(BaseOpcode::LD) => LoadVariant::I64,
                    _ => LoadVariant::I64L32 { signed: true },
                };
                let load = Expression::Load {
                    variant,
                    address: Box::new(
                        offset_expression(read_register(instr.rs1.unwrap()), instr.imm.unwrap()),
                    ),
                    offset: 0,
                    align: 4,
                };
                out.push(write_register(instr.rd.unwrap(), load));
            },
            Opcode::BaseI(BaseOpcode::SD) | Opcode::BaseI(BaseOpcode::SW) => {
                let variant = match instr.opc {
                    Opcode::BaseI(BaseOpcode::SW) => StoreVariant::I64L32,
                    _ => StoreVariant::I64,
                };
                out.push(
                    Expression::Store {
                        variant,
                        value: Box::new(read_register(instr.rs2.unwrap())),
                        address: Box::new(
                            offset_expression(
                                read_register(instr.rs1.unwrap()),
                                instr.imm.unwrap(),
                            ),
                        ),
                        offset: 0,
                        align: 4,
                    },
                );
            },
            Opcode::BaseI(BaseOpcode::JALR) => {
                let is_return = match (instr.rd, instr.rs1, instr.imm) {
                    (Some(rd), Some(rs1), Some(imm)) => rd == ZERO_REGISTER && rs1
                        == RETURN_ADDRESS_REGISTER && imm == 0,
                    _ => false,
                };
                if is_return {
                    let values = expression_list(read_registers(&ctx.return_registers));
                    out.push(Expression::Return(Box::new(Expression::Tuple(values))));
                }
            },
            Opcode::BaseI(BaseOpcode::ECALL) => {
                let registers: Vec<u32> = vec![17, 10, 11, 12, 13, 14, 15];
                let arguments = expression_list(read_registers(&registers));
                proof {
                    assert(registers@.map_values(|x: u32| x as usize) =~= environment_call_registers());
                }
                out.push(
                    write_register(
                        A0,
                        Expression::Call { target: CallTarget::EnvironmentCall, arguments },
                    ),
                );
            },
            Opcode::BaseI(BaseOpcode::AUIPC) => {
                let value = offset_expression(
                    Expression::Const(Literal::I64(current_address)),
                    instr.imm.unwrap(),
                );
                out.push(write_register(instr.rd.unwrap(), value));
            },
            _ => {},
        }
        proof {
            assert(out@ =~= riscv_lowering(
                effective(*self),
                metadata.call_routine_index,
                *ctx,
                current_address,
            ));
        }
        block_exprs.append(&mut out);
    }

    /// The condition under which the branch is taken: `rs1 < rs2` (signed) for BLT, none
    /// for the others.
    pub fn branch_condition(&self) -> (r: Option<Expression>)
        requires
            self.opc == Opcode::BaseI(BaseOpcode::BLT) ==> (self.rs1 matches Some(a) && 1 <= a
                < 32) && (self.rs2 matches Some(b) && 1 <= b < 32),
        ensures
            r == (if self.opc == Opcode::BaseI(BaseOpcode::BLT) {
                Some(
                    Expression::Binary {
                        op: BinaryOp::LtSInt64,
                        left: Box::new(Expression::LocalGet { index: (self.rs1->0 - 1) as u32 }),
                        right: Box::new(Expression::LocalGet { index: (self.rs2->0 - 1) as u32 }),
                    },
                )
            } else {
                None
            }),
    {
        match self.opc {
            Opcode::BaseI(BaseOpcode::BLT) => Some(
                Expression::Binary {
                    op: BinaryOp::LtSInt64,
                    left: Box::new(
                        Expression::LocalGet { index: register_to_local_index(self.rs1.unwrap()) },
                    ),
                    right: Box::new(
                        Expression::LocalGet { index: register_to_local_index(self.rs2.unwrap()) },
                    ),
                },
            ),
            _ => None,
        }
    }
}

/// The context for lowering the routines of a RISC-V program whose routines start at
/// `routine_addresses`: functions return `ra`, `sp` and `a0`..`a7`, and the call result
/// local follows the locals of `x1`..`x31`.
pub fn riscv_routine_context(routine_addresses: Vec<u64>) -> (r: RoutineContext)
    ensures
        r.return_registers@ == seq![1u32, 2, 10, 11, 12, 13, 14, 15, 16, 17],
        r.func_return_scratch_local_index == 31,
        r.svc_return_scratch_local_index == 32,
        r.routine_addresses@ == routine_addresses@,
        riscv_context_ok(r),
{
    let return_registers: Vec<u32> = vec![1, 2, 10, 11, 12, 13, 14, 15, 16, 17];
    proof {
        assert(return_registers@ =~= seq![1u32, 2, 10, 11, 12, 13, 14, 15, 16, 17]);
    }
    RoutineContext {
        return_registers,
        func_return_scratch_local_index: 31,
        svc_return_scratch_local_index: 32,
        routine_addresses,
    }
}


fn register_ok(register: Option<usize>) -> (r: bool)
    ensures
        r == (register matches Some(n) ==> n < 32),
{
    match register {
        Some(n) => n < 32,
        None => true,
    }
}

impl RiscVInstruction {
    /// Whether `translate` is defined on the instruction.
    pub fn is_lowerable(&self) -> (r: bool)
        ensures
            r == riscv_lowerable(effective(*self)),
    {
        let expanded_instruction = expand_compressed(self);
        let i = match expanded_instruction {
            Some(e) => e,
            None => *self,
        };
        if !(register_ok(i.rd) && register_ok(i.rs1) && register_ok(i.rs2)) {
            return false;
        }
        match i.opc {
            Opcode::BaseI(BaseOpcode::ADD) => i.rd.is_some() && i.rs1.is_some() && i.rs2.is_some(),
            Opcode::BaseI(BaseOpcode::ADDI) | Opcode::BaseI(BaseOpcode::LD) | Opcode::BaseI(
                BaseOpcode::LW,
            ) => i.rd.is_some() && i.rs1.is_some() && i.imm.is_some(),
            Opcode::BaseI(BaseOpcode::SD) | Opcode::BaseI(BaseOpcode::SW) => i.rs1.is_some()
                && i.rs2.is_some() && i.imm.is_some(),
            Opcode::BaseI(BaseOpcode::AUIPC) => i.rd.is_some() && i.imm.is_some(),
            _ => true,
        }
    }

    /// Whether `branch_kind` is defined on the instruction at `address`, after
    /// `prev_instruction`, in a program whose routines start at `routine_addresses`.
    pub fn is_branch_analysable(
        &self,
        address: u64,
        prev_instruction: Option<&RiscVInstruction>,
        routine_addresses: &[u64],
    ) -> (r: bool)
        ensures
            r == branch_analysable(
                effective(*self),
                address,
                match prev_instruction {
                    Some(p) => Some(*p),
                    None => None,
                },
                routine_addresses@,
            ),
    {
        let expanded_instruction = expand_compressed(self);
        let i = match expanded_instruction {
            Some(e) => e,
            None => *self,
        };
        match i.opc {
            Opcode::BaseI(BaseOpcode::BEQ) | Opcode::BaseI(BaseOpcode::BNE) | Opcode::BaseI(
                BaseOpcode::BLT,
            ) | Opcode::BaseI(BaseOpcode::BGE) | Opcode::BaseI(BaseOpcode::BLTU)
            | Opcode::BaseI(BaseOpcode::BGEU) => i.imm.is_some(),
            Opcode::BaseI(BaseOpcode::JAL) => {
                if i.rd.is_none() || i.imm.is_none() {
                    return false;
                }
                if i.rd.unwrap() != RETURN_ADDRESS_REGISTER {
                    return true;
                }
                let target_address = address.wrapping_add_signed(i.imm.unwrap() as i64);
                find_address(routine_addresses, target_address).is_some()
            },
            Opcode::BaseI(BaseOpcode::JALR) => {
                if i.rd.is_none() || i.rs1.is_none() || i.imm.is_none() {
                    return false;
                }
                let link = i.rd.unwrap();
                if link != RETURN_ADDRESS_REGISTER {
                    return true;
                }
                let base = i.rs1.unwrap();
                match prev_instruction {
                    Some(prev) => match (prev.opc, prev.rd) {
                        (Opcode::BaseI(BaseOpcode::AUIPC), Some(prev_rd)) => {
                            if prev_rd != base {
                                return true;
                            }
                            let target_address = address.wrapping_sub(prev.size()).wrapping_add_signed(
                                i.imm.unwrap() as i64,
                            );
                            find_address(routine_addresses, target_address).is_some()
                        },
                        _ => true,
                    },
                    None => true,
                }
            },
            _ => true,
        }
    }
}


/// The RVC expansions: each compressed instruction stands for the base instruction the
/// RISC-V compressed extension names. C.BEQZ rs1', imm is BEQ rs1', x0, imm and C.BNEZ
/// is BNE rs1', x0, imm; C.J is JAL x0 and C.JAL is JAL x1; C.JR is JALR x0, rs1, 0 and
/// C.JALR is JALR x1, rs1, 0; C.MV is ADD rd, x0, rs2; C.LI is ADDI rd, x0, imm; C.NOP
/// is ADDI x0, x0, 0; the stack-pointer forms take x2; the two-operand arithmetic forms
/// use rd as their first source; the others keep their operation and operands.
pub proof fn lemma_compressed_expansions(i: RiscVInstruction)
    ensures
        i.opc == Opcode::C(CompressedOpcode::ADDI4SPN) ==> expanded(i) == Some(RiscVInstruction { opc: Opcode::BaseI(BaseOpcode::ADDI), rd: i.rd, rs1: Some(2usize), rs2: None, imm: i.imm, is_compressed: false }),
        i.opc == Opcode::C(CompressedOpcode::LW) ==> expanded(i) == Some(RiscVInstruction { opc: Opcode::BaseI(BaseOpcode::LW), rd: i.rd, rs1: i.rs1, rs2: None, imm: i.imm, is_compressed: false }),
        i.opc == Opcode::C(CompressedOpcode::LD) ==> expanded(i) == Some(RiscVInstruction { opc: Opcode::BaseI(BaseOpcode::LD), rd: i.rd, rs1: i.rs1, rs2: None, imm: i.imm, is_compressed: false }),
        i.opc == Opcode::C(CompressedOpcode::SW) ==> expanded(i) == Some(RiscVInstruction { opc: Opcode::BaseI(BaseOpcode::SW), rd: None, rs1: i.rs1, rs2: i.rs2, imm: i.imm, is_compressed: false }),
        i.opc == Opcode::C(CompressedOpcode::SD) ==> expanded(i) == Some(RiscVInstruction { opc: Opcode::BaseI(BaseOpcode::SD), rd: None, rs1: i.rs1, rs2: i.rs2, imm: i.imm, is_compressed: false }),
        i.opc == Opcode::C(CompressedOpcode::NOP) ==> expanded(i) == Some(RiscVInstruction { opc: Opcode::BaseI(BaseOpcode::ADDI), rd: Some(0usize), rs1: Some(0usize), rs2: None, imm: Some(0i32), is_compressed: false }),
        i.opc == Opcode::C(CompressedOpcode::ADDI) ==> expanded(i) == Some(RiscVInstruction { opc: Opcode::BaseI(BaseOpcode::ADDI), rd: i.rd, rs1: i.rs1, rs2: None, imm: i.imm, is_compressed: false }),
        i.opc == Opcode::C(CompressedOpcode::ADDIW) ==> expanded(i) == Some(RiscVInstruction { opc: Opcode::BaseI(BaseOpcode::ADDIW), rd: i.rd, rs1: i.rs1, rs2: None, imm: i.imm, is_compressed: false }),
        i.opc == Opcode::C(CompressedOpcode::JAL) ==> expanded(i) == Some(RiscVInstruction { opc: Opcode::BaseI(BaseOpcode::JAL), rd: Some(1usize), rs1: None, rs2: None, imm: i.imm, is_compressed: false }),
        i.opc == Opcode::C(CompressedOpcode::LI) ==> expanded(i) == Some(RiscVInstruction { opc: Opcode::BaseI(BaseOpcode::ADDI), rd: i.rd, rs1: Some(0usize), rs2: None, imm: i.imm, is_compressed: false }),
        i.opc == Opcode::C(CompressedOpcode::ADDI16SP) ==> expanded(i) == Some(RiscVInstruction { opc: Opcode::BaseI(BaseOpcode::ADDI), rd: Some(2usize), rs1: Some(2usize), rs2: None, imm: i.imm, is_compressed: false }),
        i.opc == Opcode::C(CompressedOpcode::LUI) ==> expanded(i) == Some(RiscVInstruction { opc: Opcode::BaseI(BaseOpcode::LUI), rd: i.rd, rs1: None, rs2: None, imm: i.imm, is_compressed: false }),
        i.opc == Opcode::C(CompressedOpcode::SRLI) ==> expanded(i) == Some(RiscVInstruction { opc: Opcode::BaseI(BaseOpcode::SRLI), rd: i.rd, rs1: i.rd, rs2: None, imm: i.imm, is_compressed: false }),
        i.opc == Opcode::C(CompressedOpcode::SRAI) ==> expanded(i) == Some(RiscVInstruction { opc: Opcode::BaseI(BaseOpcode::SRAI), rd: i.rd, rs1: i.rd, rs2: None, imm: i.imm, is_compressed: false }),
        i.opc == Opcode::C(CompressedOpcode::ANDI) ==> expanded(i) == Some(RiscVInstruction { opc: Opcode::BaseI(BaseOpcode::ANDI), rd: i.rd, rs1: i.rd, rs2: None, imm: i.imm, is_compressed: false }),
        i.opc == Opcode::C(CompressedOpcode::SUB) ==> expanded(i) == Some(RiscVInstruction { opc: Opcode::BaseI(BaseOpcode::SUB), rd: i.rd, rs1: i.rd, rs2: i.rs2, imm: None, is_compressed: false }),
        i.opc == Opcode::C(CompressedOpcode::XOR) ==> expanded(i) == Some(RiscVInstruction { opc: Opcode::BaseI(BaseOpcode::XOR), rd: i.rd, rs1: i.rd, rs2: i.rs2, imm: None, is_compressed: false }),
        i.opc == Opcode::C(CompressedOpcode::OR) ==> expanded(i) == Some(RiscVInstruction { opc: Opcode::BaseI(BaseOpcode::OR), rd: i.rd, rs1: i.rd, rs2: i.rs2, imm: None, is_compressed: false }),
        i.opc == Opcode::C(CompressedOpcode::AND) ==> expanded(i) == Some(RiscVInstruction { opc: Opcode::BaseI(BaseOpcode::AND), rd: i.rd, rs1: i.rd, rs2: i.rs2, imm: None, is_compressed: false }),
        i.opc == Opcode::C(CompressedOpcode::SUBW) ==> expanded(i) == Some(RiscVInstruction { opc: Opcode::BaseI(BaseOpcode::SUBW), rd: i.rd, rs1: i.rd, rs2: i.rs2, imm: None, is_compressed: false }),
        i.opc == Opcode::C(CompressedOpcode::ADDW) ==> expanded(i) == Some(RiscVInstruction { opc: Opcode::BaseI(BaseOpcode::ADDW), rd: i.rd, rs1: i.rd, rs2: i.rs2, imm: None, is_compressed: false }),
        i.opc == Opcode::C(CompressedOpcode::J) ==> expanded(i) == Some(RiscVInstruction { opc: Opcode::BaseI(BaseOpcode::JAL), rd: Some(0usize), rs1: None, rs2: None, imm: i.imm, is_compressed: false }),
        i.opc == Opcode::C(CompressedOpcode::BEQZ) ==> expanded(i) == Some(RiscVInstruction { opc: Opcode::BaseI(BaseOpcode::BEQ), rd: None, rs1: i.rs1, rs2: Some(0usize), imm: i.imm, is_compressed: false }),
        i.opc == Opcode::C(CompressedOpcode::BNEZ) ==> expanded(i) == Some(RiscVInstruction { opc: Opcode::BaseI(BaseOpcode::BNE), rd: None, rs1: i.rs1, rs2: Some(0usize), imm: i.imm, is_compressed: false }),
        i.opc == Opcode::C(CompressedOpcode::SLLI) ==> expanded(i) == Some(RiscVInstruction { opc: Opcode::BaseI(BaseOpcode::SLLI), rd: i.rd, rs1: i.rd, rs2: None, imm: i.imm, is_compressed: false }),
        i.opc == Opcode::C(CompressedOpcode::LWSP) ==> expanded(i) == Some(RiscVInstruction { opc: Opcode::BaseI(BaseOpcode::LW), rd: i.rd, rs1: Some(2usize), rs2: None, imm: i.imm, is_compressed: false }),
        i.opc == Opcode::C(CompressedOpcode::LDSP) ==> expanded(i) == Some(RiscVInstruction { opc: Opcode::BaseI(BaseOpcode::LD), rd: i.rd, rs1: Some(2usize), rs2: None, imm: i.imm, is_compressed: false }),
        i.opc == Opcode::C(CompressedOpcode::JR) ==> expanded(i) == Some(RiscVInstruction { opc: Opcode::BaseI(BaseOpcode::JALR), rd: Some(0usize), rs1: i.rs1, rs2: None, imm: Some(0i32), is_compressed: false }),
        i.opc == Opcode::C(CompressedOpcode::MV) ==> expanded(i) == Some(RiscVInstruction { opc: Opcode::BaseI(BaseOpcode::ADD), rd: i.rd, rs1: Some(0usize), rs2: i.rs2, imm: None, is_compressed: false }),
        i.opc == Opcode::C(CompressedOpcode::EBREAK) ==> expanded(i) == Some(RiscVInstruction { opc: Opcode::BaseI(BaseOpcode::EBREAK), rd: None, rs1: None, rs2: None, imm: None, is_compressed: false }),
        i.opc == Opcode::C(CompressedOpcode::JALR) ==> expanded(i) == Some(RiscVInstruction { opc: Opcode::BaseI(BaseOpcode::JALR), rd: Some(1usize), rs1: i.rs1, rs2: None, imm: Some(0i32), is_compressed: false }),
        i.opc == Opcode::C(CompressedOpcode::ADD) ==> expanded(i) == Some(RiscVInstruction { opc: Opcode::BaseI(BaseOpcode::ADD), rd: i.rd, rs1: i.rd, rs2: i.rs2, imm: None, is_compressed: false }),
        i.opc == Opcode::C(CompressedOpcode::SWSP) ==> expanded(i) == Some(RiscVInstruction { opc: Opcode::BaseI(BaseOpcode::SW), rd: None, rs1: Some(2usize), rs2: i.rs2, imm: i.imm, is_compressed: false }),
        i.opc == Opcode::C(CompressedOpcode::SDSP) ==> expanded(i) == Some(RiscVInstruction { opc: Opcode::BaseI(BaseOpcode::SD), rd: None, rs1: Some(2usize), rs2: i.rs2, imm: i.imm, is_compressed: false }),
        !(i.opc is C) ==> expanded(i) is None,
{
}


/// The address `offset` bytes from `address`, modulo `2^64`.
proof fn lemma_offset_address(address: u64, offset: i32)
    ensures
        offset_address(address, offset) as int == (address as int + offset as int) % 0x1_0000_0000_0000_0000,
{
    let x = address as int + offset as int;
    let m = 0x1_0000_0000_0000_0000int;
    if x > u64::MAX {
        vstd::arithmetic::div_mod::lemma_fundamental_div_mod_converse(x, m, 1, x - m);
    } else if x < 0 {
        vstd::arithmetic::div_mod::lemma_fundamental_div_mod_converse(x, m, -1, x + m);
    } else {
        vstd::arithmetic::div_mod::lemma_fundamental_div_mod_converse(x, m, 0, x);
    }
}

/// How RISC-V control flow is classified: the six conditional branches (BEQ, BNE, BLT,
/// BGE, BLTU, BGEU) jump conditionally to the address their immediate away; JAL jumps
/// unconditionally there when it writes x0 and calls there when it writes ra; `jalr x0,
/// 0(ra)` not preceded by an AUIPC into ra returns; any other operation than a branch,
/// JAL or JALR does not branch.
pub proof fn lemma_riscv_branch_kinds(
    i: RiscVInstruction,
    address: u64,
    prev: Option<RiscVInstruction>,
    routines: Seq<u64>,
)
    ensures
        ({
            let kind = branch_kind_of(i, address, prev, routines).0;
            let target = ((address as int + i.imm->0 as int) % 0x1_0000_0000_0000_0000) as u64;
            let conditional = i.opc == Opcode::BaseI(BaseOpcode::BEQ) || i.opc == Opcode::BaseI(BaseOpcode::BNE)
                || i.opc == Opcode::BaseI(BaseOpcode::BLT) || i.opc == Opcode::BaseI(BaseOpcode::BGE)
                || i.opc == Opcode::BaseI(BaseOpcode::BLTU) || i.opc == Opcode::BaseI(BaseOpcode::BGEU);
            &&& conditional ==> kind == RiscVBranchKind::Jump { conditional: true, target_address: target }
            &&& i.opc == Opcode::BaseI(BaseOpcode::JAL) && i.rd == Some(0usize) ==> kind
                == RiscVBranchKind::Jump { conditional: false, target_address: target }
            &&& i.opc == Opcode::BaseI(BaseOpcode::JAL) && i.rd == Some(1usize) ==> kind
                == RiscVBranchKind::Call { target_address: target }
            &&& i.opc == Opcode::BaseI(BaseOpcode::JALR) && i.rd == Some(0usize) && i.rs1 == Some(1usize)
                && i.imm == Some(0i32) && !(prev matches Some(p) && p.opc == Opcode::BaseI(BaseOpcode::AUIPC)
                && p.rd == Some(1usize)) ==> kind == RiscVBranchKind::Return
            &&& !conditional && i.opc != Opcode::BaseI(BaseOpcode::JAL) && i.opc != Opcode::BaseI(
                BaseOpcode::JALR,
            ) ==> kind == RiscVBranchKind::NoBranch
        }),
{
    lemma_offset_address(address, i.imm->0);
}

} // verus!
