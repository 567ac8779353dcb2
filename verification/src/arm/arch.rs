use vstd::prelude::*;
use crate::arm_decoder::instructions::{Instruction, all_decodable};
use crate::arm_decoder::decoding::spec_decode;
use crate::arm_decoder::structures::{Register, register_from};
use crate::arm_decoder::utilities::le_word;
use crate::aw_core::architecture::Width;
use crate::arm::registers::{
    GP_REGISTER_COUNT, default_param_register_list, default_param_registers, flag_id_list,
    flag_ids, id, register_id, svc_param_register_list, svc_param_registers,
    svc_return_register_list, svc_return_registers,
};
use crate::arm::translation::ArmInstruction;

verus! {

/// The AArch64 architecture.
#[derive(Debug)]
pub struct Arm;

/// The identifiers of `registers`, in order.
pub open spec fn ids(registers: Seq<Register>) -> Seq<u32> {
    registers.map_values(|r: Register| register_id(r))
}

fn id_list(registers: &Vec<Register>) -> (r: Vec<u32>)
    ensures
        r@ == ids(registers@),
{
    let mut result: Vec<u32> = Vec::new();
    let mut i: usize = 0;
    while i < registers.len()
        invariant
            i <= registers.len(),
            result@ == ids(registers@.take(i as int)),
        decreases registers.len() - i,
    {
        result.push(id(registers[i]));
        proof {
            assert(registers@.take(i + 1) =~= registers@.take(i as int).push(registers@[i as int]));
        }
        i = i + 1;
    }
    proof {
        assert(registers@.take(registers.len() as int) =~= registers@);
    }
    result
}

/// Every register the translator gives a local: the argument registers, X0..X30 and
/// the flags, in that order (the argument registers among X0..X30 occur twice).
pub open spec fn all_register_ids() -> Seq<u32> {
    ids(default_param_registers()) + Seq::new(GP_REGISTER_COUNT as nat, |i: int| i as u32)
        + flag_ids()
}

impl Arm {
    /// The size of every instruction, in bytes.
    pub fn instruction_size(&self) -> (r: u64)
        ensures
            r == 4,
    {
        4
    }

    /// Decodes every whole instruction word of `bytes`, in order.
    pub fn decode_instructions(&self, bytes: &[u8]) -> (r: Vec<ArmInstruction>)
        requires
            all_decodable(bytes@),
        ensures
            r.len() == bytes.len() / 4,
            forall|k: int|
                0 <= k < r.len() ==> #[trigger] r[k].0 == spec_decode(le_word(bytes@, 4 * k)),
    {
        let mut instructions = Instruction::decode_bytes(bytes);
        let ghost decoded = instructions@;
        let mut reversed: Vec<ArmInstruction> = Vec::new();
        while instructions.len() > 0
            invariant
                instructions@ == decoded.take(instructions.len() as int),
                instructions.len() + reversed.len() == decoded.len(),
                forall|j: int|
                    0 <= j < reversed.len() ==> #[trigger] reversed[j].0 == decoded[decoded.len()
                        - 1 - j],
            decreases instructions.len(),
        {
            let instruction = instructions.pop().unwrap();
            reversed.push(ArmInstruction(instruction));
            proof {
                assert(instructions@ =~= decoded.take(instructions.len() as int));
            }
        }
        let mut result: Vec<ArmInstruction> = Vec::new();
        while reversed.len() > 0
            invariant
                result.len() + reversed.len() == decoded.len(),
                forall|j: int|
                    0 <= j < reversed.len() ==> #[trigger] reversed[j].0 == decoded[decoded.len()
                        - 1 - j],
                forall|k: int| 0 <= k < result.len() ==> #[trigger] result[k].0 == decoded[k],
            decreases reversed.len(),
        {
            let instruction = reversed.pop().unwrap();
            result.push(instruction);
        }
        result
    }

    /// The identifiers of every register that gets a local.
    pub fn all_registers(&self) -> (r: Vec<u32>)
        ensures
            r@ == all_register_ids(),
    {
        let mut result = id_list(&default_param_register_list());
        let ghost prefix = result@;
        let mut reg_index: u32 = 0;
        while reg_index < GP_REGISTER_COUNT
            invariant
                reg_index <= GP_REGISTER_COUNT,
                result@ == prefix + Seq::new(reg_index as nat, |i: int| i as u32),
            decreases GP_REGISTER_COUNT - reg_index,
        {
            result.push(id(Register::decode(reg_index, false)));
            proof {
                assert(register_id(register_from(reg_index, false)) == reg_index);
                assert(result@ =~= prefix + Seq::new((reg_index + 1) as nat, |i: int| i as u32));
            }
            reg_index = reg_index + 1;
        }
        let mut flags = flag_id_list();
        result.append(&mut flags);
        proof {
            assert(result@ =~= all_register_ids());
        }
        result
    }

    /// The width of the local that holds `register`: 32 bits for a flag, 64 otherwise.
    pub fn local_width(&self, register: u32) -> (r: Width)
        ensures
            r == (if flag_ids().contains(register) {
                Width::W32
            } else {
                Width::W64
            }),
    {
        let flags = flag_id_list();
        let mut i: usize = 0;
        while i < flags.len()
            invariant
                flags@ == flag_ids(),
                i <= flags.len(),
                forall|k: int| 0 <= k < i ==> flags[k] != register,
            decreases flags.len() - i,
        {
            if flags[i] == register {
                return Width::W32;
            }
            i = i + 1;
        }
        Width::W64
    }

    /// The identifiers of the registers that carry a routine's arguments.
    pub fn param_registers(&self) -> (r: Vec<u32>)
        ensures
            r@ == ids(default_param_registers()),
    {
        id_list(&default_param_register_list())
    }

    /// The identifiers of the registers that carry a system call's number and arguments.
    pub fn svc_param_registers(&self) -> (r: Vec<u32>)
        ensures
            r@ == ids(svc_param_registers()),
    {
        id_list(&svc_param_register_list())
    }

    /// The identifiers of the registers that carry a system call's results.
    pub fn svc_return_registers(&self) -> (r: Vec<u32>)
        ensures
            r@ == ids(svc_return_registers()),
    {
        id_list(&svc_return_register_list())
    }

    /// The identifier of the stack pointer.
    pub fn stack_pointer_register(&self) -> (r: u32)
        ensures
            r == register_id(Register::SP),
    {
        id(Register::SP)
    }

    /// Whether `register` is the identifier of the zero register.
    pub fn is_zero_register(&self, register: u32) -> (r: bool)
        ensures
            r == (register == register_id(Register::XZR)),
    {
        register == id(Register::XZR)
    }
}

} // verus!
