use vstd::prelude::*;
use crate::arm_decoder::instructions::{
    AddSubtractOp, AddSubtractRightOperand, BranchTarget, Instruction, LoadStoreOffset,
    LoadStoreOp,
};
use crate::arm_decoder::structures::{Shift, SizeVariant};
use crate::aw_core::architecture::{BranchKind, StackAccess, Width};
use crate::aw_core::instruction_helper::{
    InstructionInfo, SizedRegister, registers_read_by, registers_written_by,
};
use crate::arm::registers::{id, register_id};
use crate::module::expression::BinaryOp;

verus! {

/// The width of a register operand of the given size.
pub open spec fn width_of(variant: SizeVariant) -> Width {
    match variant {
        SizeVariant::Reg32 => Width::W32,
        SizeVariant::Reg64 => Width::W64,
    }
}

pub(crate) fn width(variant: SizeVariant) -> (r: Width)
    ensures
        r == width_of(variant),
{
    match variant {
        SizeVariant::Reg32 => Width::W32,
        SizeVariant::Reg64 => Width::W64,
    }
}

/// A decoded AArch64 instruction, as the analysis and the translator see it.
#[derive(Debug, Clone, Copy)]
pub struct ArmInstruction(pub Instruction);

/// The address `offset` instructions away from `address`, wrapping around the address
/// space.
pub open spec fn jump_target(address: u64, offset: i64) -> u64 {
    ((address + 4 * offset) % 0x1_0000_0000_0000_0000) as u64
}

pub(crate) proof fn lemma_jump_target(address: u64, offset: i64)
    ensures
        vstd::wrapping::u64_specs::wrapping_add_signed(
            address,
            vstd::wrapping::i64_specs::wrapping_mul(offset, 4),
        ) == jump_target(address, offset),
{
    let m: int = 0x1_0000_0000_0000_0000;
    let x: int = offset * 4;
    let w = vstd::wrapping::i64_specs::wrapping_mul(offset, 4);
    vstd::arithmetic::div_mod::lemma_fundamental_div_mod(x, m);
    vstd::arithmetic::div_mod::lemma_mod_bound(x, m);
    assert(w == x - m * (x / m) || w == x - m * (x / m) - m);
    let y: int = address + 4 * offset;
    vstd::arithmetic::div_mod::lemma_fundamental_div_mod(y, m);
    vstd::arithmetic::div_mod::lemma_mod_bound(y, m);
    let r: int = address + w;
    assert(r == y - m * (x / m) || r == y - m * (x / m) - m);
    let k: int = if r == y - m * (x / m) { x / m } else { x / m + 1 };
    assert(r == y - m * k);
    let j: int = if r > u64::MAX { -k - 1 } else if r < 0 { -k + 1 } else { -k };
    let adjusted: int = if r > u64::MAX { r - m } else if r < 0 { r + m } else { r };
    assert(adjusted == m * j + y) by (nonlinear_arith)
        requires
            r == y - m * k,
            j == (if r > u64::MAX { -k - 1 } else if r < 0 { -k + 1 } else { -k }),
            adjusted == (if r > u64::MAX { r - m } else if r < 0 { r + m } else { r }),
    ;
    vstd::arithmetic::div_mod::lemma_mod_multiples_vanish(j, y, m);
    vstd::arithmetic::div_mod::lemma_small_mod(adjusted as nat, m as nat);
}

/// How `i`, at `address`, affects control flow: a direct branch jumps (conditionally
/// for B.cond, CBZ, CBNZ, TBZ and TBNZ), a branch with link calls, RET returns, and
/// anything else, a register branch included, falls through.
pub open spec fn branch_kind_of(i: Instruction, address: u64) -> BranchKind {
    match i {
        Instruction::UnconditionalBranch {
            link: false,
            target: BranchTarget::RelativeInstructionOffset(offset),
        } => BranchKind::Jump { conditional: false, target_address: jump_target(address, offset) },
        Instruction::BranchConditionally { target, .. } => BranchKind::Jump {
            conditional: true,
            target_address: jump_target(address, target),
        },
        Instruction::CompareAndBranch { target, .. } => BranchKind::Jump {
            conditional: true,
            target_address: jump_target(address, target),
        },
        Instruction::TestBitAndBranch { target, .. } => BranchKind::Jump {
            conditional: true,
            target_address: jump_target(address, target),
        },
        Instruction::UnconditionalBranch { link: true, .. } => BranchKind::Call,
        Instruction::Return { .. } => BranchKind::Return,
        _ => BranchKind::NoBranch,
    }
}

/// The frame allocation a writeback offset makes: a negative writeback of `n` bytes
/// allocates `n`.
pub open spec fn allocation_of(writeback: Option<i32>) -> Option<u64> {
    match writeback {
        Some(w) => if w < 0 {
            Some((-w) as u64)
        } else {
            None
        },
        None => None,
    }
}

/// What `i` does to the stack frame, given the identifier of the stack pointer: the
/// frame size it establishes (a 64-bit `SUB sp, sp, #n`, or a store or load on the
/// stack pointer with a negative writeback), and the accesses it makes relative to the
/// stack pointer.
pub open spec fn stack_frame_effect_of(i: Instruction, stack_pointer: u32) -> (
    Option<u64>,
    Seq<StackAccess>,
) {
    match i {
        Instruction::AddSubtract {
            destination,
            op: AddSubtractOp::Subtract,
            operand1,
            operand2: AddSubtractRightOperand::Immediate(offset),
            set_flags: false,
            variant: SizeVariant::Reg64,
        } => if register_id(destination) == stack_pointer && register_id(operand1)
            == stack_pointer {
            (Some(offset), Seq::empty())
        } else {
            (None, Seq::empty())
        },
        Instruction::LoadStoreRegister {
            address,
            offset: LoadStoreOffset::Immediate { offset },
            op,
            size,
            ..
        } => if register_id(address) == stack_pointer {
            (
                allocation_of(offset.writeback),
                seq![
                    StackAccess {
                        offset: offset.access,
                        size_bytes: size.bytes() as u32,
                        read: !(op is Store),
                        write: op is Store,
                    },
                ],
            )
        } else {
            (None, Seq::empty())
        },
        Instruction::LoadStorePairOfRegisters { address, offset, op, size, variant, .. } => if
        register_id(address) == stack_pointer {
            let size_bytes: u32 = if size == SizeVariant::Reg64 {
                8
            } else {
                4
            };
            let step: i32 = if variant == SizeVariant::Reg64 {
                8
            } else {
                4
            };
            (
                allocation_of(offset.writeback),
                seq![
                    StackAccess {
                        offset: offset.access,
                        size_bytes,
                        read: !(op is Store),
                        write: op is Store,
                    },
                    StackAccess {
                        offset: vstd::wrapping::i32_specs::wrapping_add(offset.access, step),
                        size_bytes,
                        read: !(op is Store),
                        write: op is Store,
                    },
                ],
            )
        } else {
            (None, Seq::empty())
        },
        _ => (None, Seq::empty()),
    }
}

/// The identifiers of the registers in `regs`, in order.
pub open spec fn register_ids(regs: Seq<SizedRegister>) -> Seq<u32> {
    regs.map_values(|sr: SizedRegister| register_id(sr.register))
}

fn ids_of(regs: Vec<SizedRegister>) -> (r: Vec<u32>)
    ensures
        r@ == register_ids(regs@),
{
    let mut result: Vec<u32> = Vec::new();
    let mut i: usize = 0;
    while i < regs.len()
        invariant
            i <= regs.len(),
            result@ == register_ids(regs@.take(i as int)),
        decreases regs.len() - i,
    {
        result.push(id(regs[i].register));
        proof {
            assert(regs@.take(i + 1) =~= regs@.take(i as int).push(regs@[i as int]));
        }
        i = i + 1;
    }
    proof {
        assert(regs@.take(regs.len() as int) =~= regs@);
    }
    result
}

/// The allocation a writeback offset makes.
fn allocation(writeback: Option<i32>) -> (r: Option<u64>)
    ensures
        r == allocation_of(writeback),
{
    match writeback {
        Some(w) => if w < 0 {
            Some((-(w as i64)) as u64)
        } else {
            None
        },
        None => None,
    }
}

impl ArmInstruction {
    /// The size of the instruction in bytes.
    pub fn size(&self) -> (r: u64)
        ensures
            r == 4,
    {
        4
    }

    /// How the instruction, at `address`, affects control flow.
    pub fn branch_kind(&self, address: u64) -> (r: BranchKind)
        ensures
            r == branch_kind_of(self.0, address),
    {
        match &self.0 {
            Instruction::UnconditionalBranch {
                link: false,
                target: BranchTarget::RelativeInstructionOffset(target_offset),
            } => {
                proof {
                    lemma_jump_target(address, *target_offset);
                }
                BranchKind::Jump {
                    conditional: false,
                    target_address: address.wrapping_add_signed(target_offset.wrapping_mul(4)),
                }
            },
            Instruction::BranchConditionally { target, .. }
            | Instruction::CompareAndBranch { target, .. }
            | Instruction::TestBitAndBranch { target, .. } => {
                proof {
                    lemma_jump_target(address, *target);
                }
                BranchKind::Jump {
                    conditional: true,
                    target_address: address.wrapping_add_signed(target.wrapping_mul(4)),
                }
            },
            Instruction::UnconditionalBranch { link: true, .. } => BranchKind::Call,
            Instruction::Return { .. } => BranchKind::Return,
            _ => BranchKind::NoBranch,
        }
    }

    /// The frame size the instruction establishes, if any, and its accesses relative to
    /// the register identified by `stack_pointer`.
    pub fn stack_frame_effect(&self, stack_pointer: u32) -> (r: (Option<u64>, Vec<StackAccess>))
        ensures
            (r.0, r.1@) == stack_frame_effect_of(self.0, stack_pointer),
    {
        match &self.0 {
            Instruction::AddSubtract {
                destination,
                op: AddSubtractOp::Subtract,
                operand1,
                operand2: AddSubtractRightOperand::Immediate(offset),
                set_flags: false,
                variant: SizeVariant::Reg64,
            } => {
                if id(*destination) == stack_pointer && id(*operand1) == stack_pointer {
                    (Some(*offset), Vec::new())
                } else {
                    (None, Vec::new())
                }
            },
            Instruction::LoadStoreRegister {
                address,
                offset: LoadStoreOffset::Immediate { offset },
                op,
                size,
                ..
            } => {
                if id(*address) == stack_pointer {
                    let write = matches!(op, LoadStoreOp::Store);
                    let accesses = vec![
                        StackAccess {
                            offset: offset.access,
                            size_bytes: size.byte_count() as u32,
                            read: !write,
                            write,
                        },
                    ];
                    proof {
                        assert(accesses@ =~= stack_frame_effect_of(self.0, stack_pointer).1);
                    }
                    (allocation(offset.writeback), accesses)
                } else {
                    (None, Vec::new())
                }
            },
            Instruction::LoadStorePairOfRegisters { address, offset, op, size, variant, .. } => {
                if id(*address) == stack_pointer {
                    let write = matches!(op, LoadStoreOp::Store);
                    let size_bytes = size.byte_count() as u32;
                    let step = variant.byte_count() as i32;
                    let accesses = vec![
                        StackAccess { offset: offset.access, size_bytes, read: !write, write },
                        StackAccess {
                            offset: offset.access.wrapping_add(step),
                            size_bytes,
                            read: !write,
                            write,
                        },
                    ];
                    proof {
                        assert(accesses@ =~= stack_frame_effect_of(self.0, stack_pointer).1);
                    }
                    (allocation(offset.writeback), accesses)
                } else {
                    (None, Vec::new())
                }
            },
            _ => (None, Vec::new()),
        }
    }

    /// The identifiers of the registers the instruction reads.
    pub fn registers_read(&self) -> (r: Vec<u32>)
        ensures
            r@ == register_ids(registers_read_by(self.0)),
    {
        ids_of(InstructionInfo::registers_read(&self.0))
    }

    /// The identifiers of the registers the instruction writes.
    pub fn registers_written(&self) -> (r: Vec<u32>)
        ensures
            r@ == register_ids(registers_written_by(self.0)),
    {
        ids_of(InstructionInfo::registers_written(&self.0))
    }
}

/// The binary operation that applies a shift of the given type at the given width.
pub open spec fn shift_op(shift_type: Shift, variant: SizeVariant) -> BinaryOp {
    match (shift_type, variant) {
        (Shift::LSL, SizeVariant::Reg32) => BinaryOp::ShlInt32,
        (Shift::LSL, SizeVariant::Reg64) => BinaryOp::ShlInt64,
        (Shift::LSR, SizeVariant::Reg32) => BinaryOp::ShrUInt32,
        (Shift::LSR, SizeVariant::Reg64) => BinaryOp::ShrUInt64,
        (Shift::ASR, SizeVariant::Reg32) => BinaryOp::ShrSInt32,
        (Shift::ASR, SizeVariant::Reg64) => BinaryOp::ShrSInt64,
        (Shift::ROR, SizeVariant::Reg32) => BinaryOp::RotRInt32,
        (Shift::ROR, SizeVariant::Reg64) => BinaryOp::RotRInt64,
    }
}

/// The binary operation that applies a shift of the given type at the given width.
pub fn resolve_shift_op(shift_type: Shift, variant: SizeVariant) -> (r: BinaryOp)
    ensures
        r == shift_op(shift_type, variant),
{
    match (shift_type, variant) {
        (Shift::LSL, SizeVariant::Reg32) => BinaryOp::ShlInt32,
        (Shift::LSL, SizeVariant::Reg64) => BinaryOp::ShlInt64,
        (Shift::LSR, SizeVariant::Reg32) => BinaryOp::ShrUInt32,
        (Shift::LSR, SizeVariant::Reg64) => BinaryOp::ShrUInt64,
        (Shift::ASR, SizeVariant::Reg32) => BinaryOp::ShrSInt32,
        (Shift::ASR, SizeVariant::Reg64) => BinaryOp::ShrSInt64,
        (Shift::ROR, SizeVariant::Reg32) => BinaryOp::RotRInt32,
        (Shift::ROR, SizeVariant::Reg64) => BinaryOp::RotRInt64,
    }
}

} // verus!
