use vstd::prelude::*;
use crate::reboot::instructions::{Address, AddressingMode, Instruction, Register};

verus! {

/// The registers an instruction reads and writes.
pub trait InstructionInfo {
    fn registers_read(&self) -> Vec<Register>;

    fn registers_written(&self) -> Vec<Register>;
}

/// The registers `i` reads, in operand order.
pub open spec fn registers_read_by(i: Instruction) -> Seq<Register> {
    match i {
        Instruction::AddImmediate { source, .. } => seq![source],
        Instruction::BitwiseOrShiftedRegister { operand1, operand2, .. } => seq![operand1, operand2],
        Instruction::LoadRegisterImmediate { address, .. } => seq![address.base],
        Instruction::Return { target } => seq![target],
        Instruction::StoreRegisterImmediate { address, value, .. } => seq![address.base, value],
        Instruction::StoreRegisterHalfwordImmediate { address, value } => seq![address.base, value],
        Instruction::StorePairOfRegisters { address, value1, value2, .. } => seq![
            address.base,
            value1,
            value2,
        ],
        Instruction::StoreRegisterRegister { base_address, offset, value, .. } => seq![
            base_address,
            offset,
            value,
        ],
        Instruction::SubImmediate { source, .. } => seq![source],
        Instruction::SubsImmediate { source, .. } => seq![source],
        Instruction::SubShiftedRegister { operand1, operand2, .. } => seq![operand1, operand2],
        Instruction::TestBitAndBranchIfNonzero { value, .. } => seq![value],
        Instruction::TestBitAndBranchIfZero { value, .. } => seq![value],
        _ => seq![],
    }
}

/// Whether an addressing mode writes the updated address back to the base register.
pub open spec fn writes_back(mode: AddressingMode) -> bool {
    mode is PreIndexWithWriteback || mode is PostIndexWithWriteback
}

/// The registers `i` writes: its destination, or the base register of a single-register
/// store that writes its address back.
pub open spec fn registers_written_by(i: Instruction) -> Seq<Register> {
    match i {
        Instruction::AddImmediate { destination, .. } => seq![destination],
        Instruction::BitwiseOrShiftedRegister { destination, .. } => seq![destination],
        Instruction::LoadRegisterImmediate { destination, .. } => seq![destination],
        Instruction::MoveWideWithZero { destination, .. } => seq![destination],
        Instruction::StoreRegisterImmediate { address, .. } => if writes_back(address.mode) {
            seq![address.base]
        } else {
            seq![]
        },
        Instruction::SubImmediate { destination, .. } => seq![destination],
        Instruction::SubsImmediate { destination, .. } => seq![destination],
        Instruction::SubShiftedRegister { destination, .. } => seq![destination],
        _ => seq![],
    }
}

impl InstructionInfo for Instruction {
    fn registers_read(&self) -> (r: Vec<Register>)
        ensures
            r@ == registers_read_by(*self),
    {
        match self {
            Instruction::AddImmediate { source, .. } => vec![*source],
            Instruction::BitwiseOrShiftedRegister { operand1, operand2, .. } => vec![
                *operand1,
                *operand2,
            ],
            Instruction::Branch { .. } => vec![],
            Instruction::BranchConditionally { .. } => vec![],
            Instruction::BranchWithLink { .. } => vec![],
            Instruction::FormPCRelativeAddress { .. } => vec![],
            Instruction::FormPCRelativeAddressToPage { .. } => vec![],
            Instruction::LoadRegisterImmediate { address, .. } => vec![address.base],
            Instruction::MoveWideWithZero { .. } => vec![],
            Instruction::Nop => vec![],
            Instruction::Return { target } => vec![*target],
            Instruction::StoreRegisterImmediate { address, value, .. } => vec![
                address.base,
                *value,
            ],
            Instruction::StoreRegisterHalfwordImmediate { address, value } => vec![
                address.base,
                *value,
            ],
            Instruction::StorePairOfRegisters { address, value1, value2, .. } => vec![
                address.base,
                *value1,
                *value2,
            ],
            Instruction::StoreRegisterRegister { base_address, offset, value, .. } => vec![
                *base_address,
                *offset,
                *value,
            ],
            Instruction::SubImmediate { source, .. } => vec![*source],
            Instruction::SubsImmediate { source, .. } => vec![*source],
            Instruction::SubShiftedRegister { operand1, operand2, .. } => vec![
                *operand1,
                *operand2,
            ],
            Instruction::SupervisorCall { .. } => vec![],
            Instruction::TestBitAndBranchIfNonzero { value, .. } => vec![*value],
            Instruction::TestBitAndBranchIfZero { value, .. } => vec![*value],
            Instruction::Unknown => vec![],
        }
    }

    fn registers_written(&self) -> (r: Vec<Register>)
        ensures
            r@ == registers_written_by(*self),
    {
        match self {
            Instruction::AddImmediate { destination, .. } => vec![*destination],
            Instruction::BitwiseOrShiftedRegister { destination, .. } => vec![*destination],
            Instruction::Branch { .. } => vec![],
            Instruction::BranchConditionally { .. } => vec![],
            Instruction::BranchWithLink { .. } => vec![],
            Instruction::FormPCRelativeAddress { .. } => vec![],
            Instruction::FormPCRelativeAddressToPage { .. } => vec![],
            Instruction::LoadRegisterImmediate { destination, .. } => vec![*destination],
            Instruction::MoveWideWithZero { destination, .. } => vec![*destination],
            Instruction::Nop => vec![],
            Instruction::Return { .. } => vec![],
            Instruction::StoreRegisterImmediate {
                address: Address {
                    base,
                    mode: AddressingMode::PreIndexWithWriteback { .. },
                },
                ..
            } => vec![*base],
            Instruction::StoreRegisterImmediate {
                address: Address {
                    base,
                    mode: AddressingMode::PostIndexWithWriteback { .. },
                },
                ..
            } => vec![*base],
            Instruction::StoreRegisterImmediate { .. } => vec![],
            Instruction::StoreRegisterHalfwordImmediate { .. } => vec![],
            Instruction::StorePairOfRegisters { .. } => vec![],
            Instruction::StoreRegisterRegister { .. } => vec![],
            Instruction::SubImmediate { destination, .. } => vec![*destination],
            Instruction::SubsImmediate { destination, .. } => vec![*destination],
            Instruction::SubShiftedRegister { destination, .. } => vec![*destination],
            Instruction::SupervisorCall { .. } => vec![],
            Instruction::TestBitAndBranchIfNonzero { .. } => vec![],
            Instruction::TestBitAndBranchIfZero { .. } => vec![],
            Instruction::Unknown => vec![],
        }
    }
}

} // verus!
