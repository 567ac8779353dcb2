//! Decoders for the instruction groups, and the dispatch over them.

pub mod addsub;
pub mod bitfield;
pub mod branch;
pub mod float;
pub mod loadstore;
pub mod loadstore_pair;
pub mod logical;
pub mod misc;
pub mod movewide;
pub mod select;

use vstd::prelude::*;
use crate::arm_decoder::instructions::Instruction;
use crate::arm_decoder::structures::InstructionBytes;

verus! {

/// The words the dispatching decoder accepts: each group decoder it tries must be
/// defined on the word.
pub open spec fn decodable(v: u32) -> bool {
    &&& addsub::decodable(v)
    &&& addsub::spec_decode(v) is None ==> {
        &&& loadstore::decodable(v)
        &&& loadstore::spec_decode(v) is None ==> logical::decodable(v)
    }
}

/// The instruction encoded by `v`: the result of the first group decoder (add and
/// subtract, loads and stores, logical, then system and PC-relative) that
/// recognises the word, or `Unknown` when none does.
pub open spec fn spec_decode(v: u32) -> Instruction {
    match addsub::spec_decode(v) {
        Some(instruction) => instruction,
        None => match loadstore::spec_decode(v) {
            Some(instruction) => instruction,
            None => match logical::spec_decode(v) {
                Some(instruction) => instruction,
                None => match misc::spec_decode(v) {
                    Some(instruction) => instruction,
                    None => Instruction::Unknown,
                },
            },
        },
    }
}

/// Whether the dispatching decoder is defined on `value`.
pub fn is_decodable(value: u32) -> (r: bool)
    ensures
        r == decodable(value),
{
    let bytes = InstructionBytes(value);
    if !addsub::is_decodable(bytes) {
        return false;
    }
    if addsub::decode(bytes).is_some() {
        return true;
    }
    if !loadstore::is_decodable(bytes) {
        return false;
    }
    if loadstore::decode(bytes).is_some() {
        return true;
    }
    logical::is_decodable(bytes)
}

/// Decodes one instruction word.
pub fn decode(value: u32) -> (r: Instruction)
    requires
        decodable(value),
    ensures
        r == spec_decode(value),
{
    let bytes = InstructionBytes(value);

    if let Some(instruction) = addsub::decode(bytes) {
        instruction
    } else if let Some(instruction) = loadstore::decode(bytes) {
        instruction
    } else if let Some(instruction) = logical::decode(bytes) {
        instruction
    } else if let Some(instruction) = misc::decode(bytes) {
        instruction
    } else {
        Instruction::Unknown
    }
}


/// The dispatching decoder gives what the first of the group decoders that recognises
/// the word gives, trying additions and subtractions, then loads and stores, then
/// logical operations, then the rest; a word none recognises is `Unknown`.
pub proof fn lemma_first_group_wins(v: u32)
    ensures
        addsub::spec_decode(v) matches Some(i) ==> spec_decode(v) == i,
        addsub::spec_decode(v) is None ==> (loadstore::spec_decode(v) matches Some(i) ==> spec_decode(v) == i),
        addsub::spec_decode(v) is None && loadstore::spec_decode(v) is None ==> (
        logical::spec_decode(v) matches Some(i) ==> spec_decode(v) == i),
        addsub::spec_decode(v) is None && loadstore::spec_decode(v) is None
            && logical::spec_decode(v) is None ==> (misc::spec_decode(v) matches Some(i) ==> spec_decode(v) == i),
        addsub::spec_decode(v) is None && loadstore::spec_decode(v) is None
            && logical::spec_decode(v) is None && misc::spec_decode(v) is None ==> spec_decode(v) == Instruction::Unknown,
{
}

} // verus!
