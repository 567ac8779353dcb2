use vstd::prelude::*;
use vstd::arithmetic::power2::lemma2_to64;
use crate::arm_decoder::instructions::{Instruction, LoadStoreOp};
use crate::arm_decoder::structures::{
    InstructionBytes, SizeVariant, WritebackOffset, reg, simm, variant_of,
};
use crate::arm_decoder::utilities::{equal_masked, field};

verus! {

/// Load/store pair of general purpose registers (`V = 0`).
pub open spec fn is_pair(v: u32) -> bool {
    (v & 0b0011_1110_0000_0000_0000_0000_0000_0000) == 0b0010_1000_0000_0000_0000_0000_0000_0000
}

/// The operation and register size from `opc` and the load bit `L`.
pub open spec fn pair_operation(opc: nat, load: nat) -> Option<(LoadStoreOp, SizeVariant)> {
    if opc == 0 && load == 0 {
        Some((LoadStoreOp::Store, SizeVariant::Reg32))
    } else if opc == 0 && load == 1 {
        Some((LoadStoreOp::LoadZeroExtend, SizeVariant::Reg32))
    } else if opc == 1 && load == 1 {
        Some((LoadStoreOp::LoadSignExtend { variant: SizeVariant::Reg32 }, SizeVariant::Reg32))
    } else if opc == 2 && load == 0 {
        Some((LoadStoreOp::Store, SizeVariant::Reg64))
    } else if opc == 2 && load == 1 {
        Some((LoadStoreOp::LoadZeroExtend, SizeVariant::Reg64))
    } else {
        None
    }
}

/// The words on which this decoder is defined: STP, LDP or LDPSW of general purpose
/// registers in post-indexed, signed offset or pre-indexed form (not the
/// non-temporal form).
pub open spec fn decodable(v: u32) -> bool {
    is_pair(v) ==> pair_operation(field(v, 30, 2), field(v, 22, 1)) is Some && field(v, 23, 2)
        != 0
}

/// The register pair load or store encoded by `v`, if it is one; the offset is
/// `imm7` scaled by the register size.
pub open spec fn spec_decode(v: u32) -> Option<Instruction> {
    if is_pair(v) {
        let (op, size) = pair_operation(field(v, 30, 2), field(v, 22, 1)).unwrap();
        let offset = (simm(v, 15, 7) * (if size == SizeVariant::Reg32 {
            4int
        } else {
            8int
        })) as i32;
        let index_mode = field(v, 23, 2);
        Some(
            Instruction::LoadStorePairOfRegisters {
                address: reg(v, 5, true),
                offset: if index_mode == 2 {
                    WritebackOffset { access: offset, writeback: None }
                } else if index_mode == 1 {
                    WritebackOffset { access: 0, writeback: Some(offset) }
                } else {
                    WritebackOffset { access: offset, writeback: Some(offset) }
                },
                op,
                size,
                value1: reg(v, 0, false),
                value2: reg(v, 10, false),
                variant: variant_of(v),
            },
        )
    } else {
        None
    }
}

/// Decodes STP, LDP and LDPSW of general purpose registers.
pub fn decode(bytes: InstructionBytes) -> (r: Option<Instruction>)
    requires
        decodable(bytes.0),
    ensures
        r == spec_decode(bytes.0),
{
    proof {
        lemma2_to64();
    }
    // Enforcing VR = 0
    if equal_masked(
        bytes.0,
        0b0011_1110_0000_0000_0000_0000_0000_0000,
        0b0010_1000_0000_0000_0000_0000_0000_0000,
    ) {
        let opc = bytes.immediate_unsigned(30, 2);
        let load = bytes.immediate_unsigned(22, 1);
        let (op, size) = if opc == 0b00 && load == 0b0 {
            (LoadStoreOp::Store, SizeVariant::Reg32)
        } else if opc == 0b00 && load == 0b1 {
            (LoadStoreOp::LoadZeroExtend, SizeVariant::Reg32)
        } else if opc == 0b01 && load == 0b1 {
            (LoadStoreOp::LoadSignExtend { variant: SizeVariant::Reg32 }, SizeVariant::Reg32)
        } else if opc == 0b10 && load == 0b0 {
            (LoadStoreOp::Store, SizeVariant::Reg64)
        } else {
            (LoadStoreOp::LoadZeroExtend, SizeVariant::Reg64)
        };

        let scale = size.byte_count() as i32;
        let offset = bytes.immediate(15, 7, true) * scale;
        let index_mode = bytes.immediate_unsigned(23, 2);

        return Some(
            Instruction::LoadStorePairOfRegisters {
                address: bytes.register(5, true),
                offset: if index_mode == 0b10 {
                    // Signed offset
                    WritebackOffset { access: offset, writeback: None }
                } else if index_mode == 0b01 {
                    // Post index with writeback
                    WritebackOffset { access: 0, writeback: Some(offset) }
                } else {
                    // Pre index with writeback
                    WritebackOffset { access: offset, writeback: Some(offset) }
                },
                op,
                size,
                value1: bytes.register(0, false),
                value2: bytes.register(10, false),
                variant: bytes.variant(),
            },
        );
    }
    None
}

} // verus!
