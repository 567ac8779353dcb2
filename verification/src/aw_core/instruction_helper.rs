use vstd::prelude::*;
use crate::arm_decoder::instructions::{
    AddSubtractRightOperand, BranchTarget, Instruction, LoadStoreOffset, LoadStoreOp,
};
use crate::arm_decoder::structures::{Register, SizeVariant, SliceSize};

verus! {

/// A register together with the width at which it is accessed.
#[derive(Debug, Clone, Copy, PartialEq, Eq, Hash)]
pub struct SizedRegister {
    pub register: Register,
    pub variant: SizeVariant,
}

/// The registers an instruction reads and writes, with their widths.
pub trait InstructionInfo {
    fn registers_read(&self) -> Vec<SizedRegister>;

    fn registers_written(&self) -> Vec<SizedRegister>;
}

/// The register width that holds a value of the given memory size.
pub open spec fn variant_for(size: SliceSize) -> SizeVariant {
    match size {
        SliceSize::Doubleword => SizeVariant::Reg64,
        _ => SizeVariant::Reg32,
    }
}

/// `register` accessed at width `variant`.
pub open spec fn sized(register: Register, variant: SizeVariant) -> SizedRegister {
    SizedRegister { register, variant }
}

/// `r` accessed as a 64-bit register.
pub open spec fn wide(register: Register) -> SizedRegister {
    sized(register, SizeVariant::Reg64)
}

fn variant_for_slice_size(size: SliceSize) -> (r: SizeVariant)
    ensures
        r == variant_for(size),
{
    match size {
        SliceSize::Doubleword => SizeVariant::Reg64,
        SliceSize::Byte | SliceSize::Halfword | SliceSize::Word => SizeVariant::Reg32,
    }
}

/// The registers `i` reads, in operand order: the sources of data processing, the
/// base (and index) of a memory access, the values a store writes to memory, and the
/// register of a register branch or compare-and-branch.
pub open spec fn registers_read_by(i: Instruction) -> Seq<SizedRegister> {
    match i {
        Instruction::AddSubtract { operand1, operand2, variant, .. } => seq![
            sized(operand1, variant),
        ] + match operand2 {
            AddSubtractRightOperand::Immediate(_) => Seq::empty(),
            AddSubtractRightOperand::ShiftedRegister { register, .. } => seq![
                sized(register, variant),
            ],
            AddSubtractRightOperand::ExtendedRegister { register, .. } => seq![
                sized(register, variant),
            ],
        },
        Instruction::LogicalImmediate { operand1, variant, .. } => seq![sized(operand1, variant)],
        Instruction::LogicalShiftedRegister { operand1, operand2, variant, .. } => seq![
            sized(operand1, variant),
            sized(operand2, variant),
        ],
        Instruction::LoadStoreRegister { address, offset, op, size, value } => seq![wide(address)]
            + match offset {
            LoadStoreOffset::Register { register, .. } => seq![wide(register)],
            LoadStoreOffset::Immediate { .. } => Seq::empty(),
        } + if op is Store {
            seq![sized(value, variant_for(size))]
        } else {
            Seq::empty()
        },
        Instruction::LoadStorePairOfRegisters { address, op, value1, value2, variant, .. } => seq![
            wide(address),
        ] + if op is Store {
            seq![sized(value1, variant), sized(value2, variant)]
        } else {
            Seq::empty()
        },
        Instruction::MoveWide { source, variant, .. } => seq![sized(source, variant)],
        Instruction::Return { target } => seq![wide(target)],
        Instruction::UnconditionalBranch { target: BranchTarget::Register(register), .. } => seq![
            wide(register),
        ],
        Instruction::CompareAndBranch { register, variant, .. } => seq![sized(register, variant)],
        Instruction::TestBitAndBranch { register, variant, .. } => seq![sized(register, variant)],
        Instruction::ConditionalSelect { operand1, operand2, variant, .. } => seq![
            sized(operand1, variant),
            sized(operand2, variant),
        ],
        Instruction::BitfieldMove { source, variant, .. } => seq![sized(source, variant)],
        Instruction::ConvertFPInteger { operand, integer_size, .. } => seq![
            sized(operand, integer_size),
        ],
        Instruction::FPMove { operand, integer_size, .. } => seq![sized(operand, integer_size)],
        _ => Seq::empty(),
    }
}

/// The registers `i` writes: the destination of data processing and loads, and the
/// base register of an access that writes its address back.
pub open spec fn registers_written_by(i: Instruction) -> Seq<SizedRegister> {
    match i {
        Instruction::AddSubtract { destination, variant, .. } => seq![sized(destination, variant)],
        Instruction::LogicalImmediate { destination, variant, .. } => seq![
            sized(destination, variant),
        ],
        Instruction::LogicalShiftedRegister { destination, variant, .. } => seq![
            sized(destination, variant),
        ],
        Instruction::ConditionalSelect { destination, variant, .. } => seq![
            sized(destination, variant),
        ],
        Instruction::BitfieldMove { destination, variant, .. } => seq![
            sized(destination, variant),
        ],
        Instruction::MoveWide { destination, variant, .. } => seq![sized(destination, variant)],
        Instruction::FormPCRelativeAddress { destination, .. } => seq![wide(destination)],
        Instruction::LoadLiteral { destination, size, .. } => seq![
            sized(destination, variant_for(size)),
        ],
        Instruction::LoadStoreRegister { address, offset, op, size, value } => (match offset {
            LoadStoreOffset::Immediate { offset } => if offset.writeback is Some {
                seq![wide(address)]
            } else {
                Seq::empty()
            },
            LoadStoreOffset::Register { .. } => Seq::empty(),
        }) + if op is Store {
            Seq::empty()
        } else {
            seq![sized(value, variant_for(size))]
        },
        Instruction::LoadStorePairOfRegisters { address, offset, op, value1, value2, variant, .. } => (
        if offset.writeback is Some {
            seq![wide(address)]
        } else {
            Seq::empty()
        }) + if op is Store {
            Seq::empty()
        } else {
            seq![sized(value1, variant), sized(value2, variant)]
        },
        Instruction::ConvertFPInteger { destination, integer_size, .. } => seq![
            sized(destination, integer_size),
        ],
        Instruction::FPMove { destination, integer_size, .. } => seq![
            sized(destination, integer_size),
        ],
        _ => Seq::empty(),
    }
}

impl InstructionInfo for Instruction {
    fn registers_read(&self) -> (r: Vec<SizedRegister>)
        ensures
            r@ == registers_read_by(*self),
    {
        match self {
            Instruction::AddSubtract { operand1, operand2, variant, .. } => {
                let mut regs = vec![SizedRegister { register: *operand1, variant: *variant }];
                match operand2 {
                    AddSubtractRightOperand::Immediate(_) => {},
                    AddSubtractRightOperand::ShiftedRegister { register, .. }
                    | AddSubtractRightOperand::ExtendedRegister { register, .. } => {
                        regs.push(SizedRegister { register: *register, variant: *variant });
                    },
                }
                proof {
                    assert(regs@ =~= registers_read_by(*self));
                }
                regs
            },
            Instruction::LogicalImmediate { operand1, variant, .. } => vec![
                SizedRegister { register: *operand1, variant: *variant },
            ],
            Instruction::LogicalShiftedRegister { operand1, operand2, variant, .. } => vec![
                SizedRegister { register: *operand1, variant: *variant },
                SizedRegister { register: *operand2, variant: *variant },
            ],
            Instruction::FormPCRelativeAddress { .. } => Vec::new(),
            Instruction::LoadStoreRegister { address, offset, op, size, value } => {
                let mut regs = vec![SizedRegister { register: *address, variant: SizeVariant::Reg64 }];
                if let LoadStoreOffset::Register { register, .. } = offset {
                    regs.push(SizedRegister { register: *register, variant: SizeVariant::Reg64 });
                }
                if matches!(op, LoadStoreOp::Store) {
                    regs.push(
                        SizedRegister { register: *value, variant: variant_for_slice_size(*size) },
                    );
                }
                proof {
                    assert(regs@ =~= registers_read_by(*self));
                }
                regs
            },
            Instruction::LoadStorePairOfRegisters { address, op, value1, value2, variant, .. } => {
                let mut regs = vec![SizedRegister { register: *address, variant: SizeVariant::Reg64 }];
                if matches!(op, LoadStoreOp::Store) {
                    regs.push(SizedRegister { register: *value1, variant: *variant });
                    regs.push(SizedRegister { register: *value2, variant: *variant });
                }
                proof {
                    assert(regs@ =~= registers_read_by(*self));
                }
                regs
            },
            Instruction::MoveWide { source, variant, .. } => vec![
                SizedRegister { register: *source, variant: *variant },
            ],
            Instruction::Nop => Vec::new(),
            Instruction::Return { target } => vec![
                SizedRegister { register: *target, variant: SizeVariant::Reg64 },
            ],
            Instruction::UnconditionalBranch { target: BranchTarget::Register(register), .. } => vec![
                SizedRegister { register: *register, variant: SizeVariant::Reg64 },
            ],
            Instruction::BranchConditionally { .. } => Vec::new(),
            Instruction::CompareAndBranch { register, variant, .. }
            | Instruction::TestBitAndBranch { register, variant, .. } => vec![
                SizedRegister { register: *register, variant: *variant },
            ],
            Instruction::ConditionalSelect { operand1, operand2, variant, .. } => vec![
                SizedRegister { register: *operand1, variant: *variant },
                SizedRegister { register: *operand2, variant: *variant },
            ],
            Instruction::BitfieldMove { source, variant, .. } => vec![
                SizedRegister { register: *source, variant: *variant },
            ],
            Instruction::ConvertFPInteger { operand, integer_size, .. }
            | Instruction::FPMove { operand, integer_size, .. } => vec![
                SizedRegister { register: *operand, variant: *integer_size },
            ],
            Instruction::FPProcessing { .. } | Instruction::SIMDTriple { .. } => Vec::new(),
            Instruction::Breakpoint { .. }
            | Instruction::PrefetchMemory
            | Instruction::PermanentlyUndefined { .. }
            | Instruction::SupervisorCall { .. }
            | Instruction::LoadLiteral { .. }
            | Instruction::UnconditionalBranch { .. }
            | Instruction::Unknown => Vec::new(),
        }
    }

    fn registers_written(&self) -> (r: Vec<SizedRegister>)
        ensures
            r@ == registers_written_by(*self),
    {
        match self {
            Instruction::AddSubtract { destination, variant, .. }
            | Instruction::LogicalImmediate { destination, variant, .. }
            | Instruction::LogicalShiftedRegister { destination, variant, .. }
            | Instruction::ConditionalSelect { destination, variant, .. }
            | Instruction::BitfieldMove { destination, variant, .. }
            | Instruction::MoveWide { destination, variant, .. } => vec![
                SizedRegister { register: *destination, variant: *variant },
            ],
            Instruction::FormPCRelativeAddress { destination, .. } => vec![
                SizedRegister { register: *destination, variant: SizeVariant::Reg64 },
            ],
            Instruction::LoadLiteral { destination, size, .. } => vec![
                SizedRegister { register: *destination, variant: variant_for_slice_size(*size) },
            ],
            Instruction::LoadStoreRegister { address, offset, op, size, value } => {
                let mut regs = Vec::new();
                if let LoadStoreOffset::Immediate { offset } = offset {
                    if offset.writeback.is_some() {
                        regs.push(SizedRegister { register: *address, variant: SizeVariant::Reg64 });
                    }
                }
                if !matches!(op, LoadStoreOp::Store) {
                    regs.push(
                        SizedRegister { register: *value, variant: variant_for_slice_size(*size) },
                    );
                }
                proof {
                    assert(regs@ =~= registers_written_by(*self));
                }
                regs
            },
            Instruction::LoadStorePairOfRegisters {
                address,
                offset,
                op,
                value1,
                value2,
                variant,
                ..
            } => {
                let mut regs = Vec::new();
                if offset.writeback.is_some() {
                    regs.push(SizedRegister { register: *address, variant: SizeVariant::Reg64 });
                }
                if !matches!(op, LoadStoreOp::Store) {
                    regs.push(SizedRegister { register: *value1, variant: *variant });
                    regs.push(SizedRegister { register: *value2, variant: *variant });
                }
                proof {
                    assert(regs@ =~= registers_written_by(*self));
                }
                regs
            },
            Instruction::ConvertFPInteger { destination, integer_size, .. }
            | Instruction::FPMove { destination, integer_size, .. } => vec![
                SizedRegister { register: *destination, variant: *integer_size },
            ],
            Instruction::FPProcessing { .. } | Instruction::SIMDTriple { .. } => Vec::new(),
            Instruction::Nop => Vec::new(),
            Instruction::Return { .. }
            | Instruction::SupervisorCall { .. }
            | Instruction::Breakpoint { .. }
            | Instruction::PrefetchMemory
            | Instruction::PermanentlyUndefined { .. }
            | Instruction::UnconditionalBranch { .. }
            | Instruction::BranchConditionally { .. }
            | Instruction::CompareAndBranch { .. }
            | Instruction::TestBitAndBranch { .. }
            | Instruction::Unknown => Vec::new(),
        }
    }
}

} // verus!
