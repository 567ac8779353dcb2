//! Decoding RISC-V instruction words with the `raki` crate.

use vstd::prelude::*;
use raki::Decode;
use crate::riscv::arch::{InstructionSpan, RiscV, spans_fit, spans_from};
use crate::riscv::instruction::{BaseOpcode, CompressedOpcode, Opcode, RiscVInstruction};
use crate::arm_decoder::utilities::{le_word, read_le_word};

verus! {

/// What `raki` decodes from a word, with its operation given as the extension it belongs
/// to (0 for the base integer set, 1 for the compressed set, 2 for any other) and the
/// position of the operation among that extension's opcodes.
#[derive(Debug, Clone, Copy, PartialEq, Eq)]
pub struct RawInstruction {
    pub opcode_set: u8,
    pub opcode_index: u32,
    pub rd: Option<usize>,
    pub rs1: Option<usize>,
    pub rs2: Option<usize>,
    pub imm: Option<i32>,
    pub is_compressed: bool,
}

/// What `raki` decodes, for RV64, from the instruction `word` (its low halfword where
/// `compressed`); `None` where it reports a decoding error.
pub uninterp spec fn raki_decoded(word: u32, compressed: bool) -> Option<RawInstruction>;

/// `Decode::decode` with `Isa::Rv64`, on `word` as a `u32`, or on its low halfword as a
/// `u16` where `compressed`: the decoded instruction's operands, and its `OpcodeKind`
/// told apart by variant, a base or compressed opcode given by its position in its
/// enum. The contract claims that the result is a function of the word and the flag,
/// and that a decoded instruction is marked compressed exactly when it was decoded from
/// a halfword (raki sets the flag so for 16-bit and 32-bit decoding).
#[verifier::external_body]
fn decode_word(word: u32, compressed: bool) -> (r: Option<RawInstruction>)
    ensures
        r == raki_decoded(word, compressed),
        r matches Some(x) ==> x.is_compressed == compressed,
{
    let decoded = if compressed { (word as u16).decode(raki::Isa::Rv64) } else { word.decode(raki::Isa::Rv64) };
    let i = decoded.ok()?;
    let (opcode_set, opcode_index) = match i.opc {
        raki::OpcodeKind::BaseI(op) => (0u8, op as u32),
        raki::OpcodeKind::C(op) => (1u8, op as u32),
        _ => (2u8, 0u32),
    };
    Some(RawInstruction { opcode_set, opcode_index, rd: i.rd, rs1: i.rs1, rs2: i.rs2, imm: i.imm, is_compressed: i.is_compressed })
}

/// The base integer opcode at `index` in the order `raki` declares them.
pub open spec fn base_opcode_at(index: u32) -> Option<BaseOpcode> {
    match index {
        0 => Some(BaseOpcode::LUI),
        1 => Some(BaseOpcode::AUIPC),
        2 => Some(BaseOpcode::JAL),
        3 => Some(BaseOpcode::JALR),
        4 => Some(BaseOpcode::BEQ),
        5 => Some(BaseOpcode::BNE),
        6 => Some(BaseOpcode::BLT),
        7 => Some(BaseOpcode::BGE),
        8 => Some(BaseOpcode::BLTU),
        9 => Some(BaseOpcode::BGEU),
        10 => Some(BaseOpcode::LB),
        11 => Some(BaseOpcode::LH),
        12 => Some(BaseOpcode::LW),
        13 => Some(BaseOpcode::LBU),
        14 => Some(BaseOpcode::LHU),
        15 => Some(BaseOpcode::SB),
        16 => Some(BaseOpcode::SH),
        17 => Some(BaseOpcode::SW),
        18 => Some(BaseOpcode::ADDI),
        19 => Some(BaseOpcode::SLTI),
        20 => Some(BaseOpcode::SLTIU),
        21 => Some(BaseOpcode::XORI),
        22 => Some(BaseOpcode::ORI),
        23 => Some(BaseOpcode::ANDI),
        24 => Some(BaseOpcode::SLLI),
        25 => Some(BaseOpcode::SRLI),
        26 => Some(BaseOpcode::SRAI),
        27 => Some(BaseOpcode::ADD),
        28 => Some(BaseOpcode::SUB),
        29 => Some(BaseOpcode::SLL),
        30 => Some(BaseOpcode::SLT),
        31 => Some(BaseOpcode::SLTU),
        32 => Some(BaseOpcode::XOR),
        33 => Some(BaseOpcode::SRL),
        34 => Some(BaseOpcode::SRA),
        35 => Some(BaseOpcode::OR),
        36 => Some(BaseOpcode::AND),
        37 => Some(BaseOpcode::ECALL),
        38 => Some(BaseOpcode::EBREAK),
        39 => Some(BaseOpcode::LWU),
        40 => Some(BaseOpcode::LD),
        41 => Some(BaseOpcode::SD),
        42 => Some(BaseOpcode::ADDIW),
        43 => Some(BaseOpcode::SLLIW),
        44 => Some(BaseOpcode::SRLIW),
        45 => Some(BaseOpcode::SRAIW),
        46 => Some(BaseOpcode::ADDW),
        47 => Some(BaseOpcode::SUBW),
        48 => Some(BaseOpcode::SLLW),
        49 => Some(BaseOpcode::SRLW),
        50 => Some(BaseOpcode::SRAW),
        _ => None,
    }
}

/// The compressed opcode at `index` in the order `raki` declares them.
pub open spec fn compressed_opcode_at(index: u32) -> Option<CompressedOpcode> {
    match index {
        0 => Some(CompressedOpcode::ADDI4SPN),
        1 => Some(CompressedOpcode::LW),
        2 => Some(CompressedOpcode::SW),
        3 => Some(CompressedOpcode::NOP),
        4 => Some(CompressedOpcode::ADDI),
        5 => Some(CompressedOpcode::JAL),
        6 => Some(CompressedOpcode::LI),
        7 => Some(CompressedOpcode::ADDI16SP),
        8 => Some(CompressedOpcode::LUI),
        9 => Some(CompressedOpcode::SRLI),
        10 => Some(CompressedOpcode::SRAI),
        11 => Some(CompressedOpcode::ANDI),
        12 => Some(CompressedOpcode::SUB),
        13 => Some(CompressedOpcode::XOR),
        14 => Some(CompressedOpcode::OR),
        15 => Some(CompressedOpcode::AND),
        16 => Some(CompressedOpcode::J),
        17 => Some(CompressedOpcode::BEQZ),
        18 => Some(CompressedOpcode::BNEZ),
        19 => Some(CompressedOpcode::SLLI),
        20 => Some(CompressedOpcode::LWSP),
        21 => Some(CompressedOpcode::JR),
        22 => Some(CompressedOpcode::MV),
        23 => Some(CompressedOpcode::EBREAK),
        24 => Some(CompressedOpcode::JALR),
        25 => Some(CompressedOpcode::ADD),
        26 => Some(CompressedOpcode::SWSP),
        27 => Some(CompressedOpcode::LD),
        28 => Some(CompressedOpcode::SD),
        29 => Some(CompressedOpcode::ADDIW),
        30 => Some(CompressedOpcode::SUBW),
        31 => Some(CompressedOpcode::ADDW),
        32 => Some(CompressedOpcode::LDSP),
        33 => Some(CompressedOpcode::SDSP),
        _ => None,
    }
}

/// The base integer opcode at `index`.
fn base_opcode(index: u32) -> (r: Option<BaseOpcode>)
    ensures
        r == base_opcode_at(index),
{
    match index {
        0 => Some(BaseOpcode::LUI),
        1 => Some(BaseOpcode::AUIPC),
        2 => Some(BaseOpcode::JAL),
        3 => Some(BaseOpcode::JALR),
        4 => Some(BaseOpcode::BEQ),
        5 => Some(BaseOpcode::BNE),
        6 => Some(BaseOpcode::BLT),
        7 => Some(BaseOpcode::BGE),
        8 => Some(BaseOpcode::BLTU),
        9 => Some(BaseOpcode::BGEU),
        10 => Some(BaseOpcode::LB),
        11 => Some(BaseOpcode::LH),
        12 => Some(BaseOpcode::LW),
        13 => Some(BaseOpcode::LBU),
        14 => Some(BaseOpcode::LHU),
        15 => Some(BaseOpcode::SB),
        16 => Some(BaseOpcode::SH),
        17 => Some(BaseOpcode::SW),
        18 => Some(BaseOpcode::ADDI),
        19 => Some(BaseOpcode::SLTI),
        20 => Some(BaseOpcode::SLTIU),
        21 => Some(BaseOpcode::XORI),
        22 => Some(BaseOpcode::ORI),
        23 => Some(BaseOpcode::ANDI),
        24 => Some(BaseOpcode::SLLI),
        25 => Some(BaseOpcode::SRLI),
        26 => Some(BaseOpcode::SRAI),
        27 => Some(BaseOpcode::ADD),
        28 => Some(BaseOpcode::SUB),
        29 => Some(BaseOpcode::SLL),
        30 => Some(BaseOpcode::SLT),
        31 => Some(BaseOpcode::SLTU),
        32 => Some(BaseOpcode::XOR),
        33 => Some(BaseOpcode::SRL),
        34 => Some(BaseOpcode::SRA),
        35 => Some(BaseOpcode::OR),
        36 => Some(BaseOpcode::AND),
        37 => Some(BaseOpcode::ECALL),
        38 => Some(BaseOpcode::EBREAK),
        39 => Some(BaseOpcode::LWU),
        40 => Some(BaseOpcode::LD),
        41 => Some(BaseOpcode::SD),
        42 => Some(BaseOpcode::ADDIW),
        43 => Some(BaseOpcode::SLLIW),
        44 => Some(BaseOpcode::SRLIW),
        45 => Some(BaseOpcode::SRAIW),
        46 => Some(BaseOpcode::ADDW),
        47 => Some(BaseOpcode::SUBW),
        48 => Some(BaseOpcode::SLLW),
        49 => Some(BaseOpcode::SRLW),
        50 => Some(BaseOpcode::SRAW),
        _ => None,
    }
}

/// The compressed opcode at `index`.
fn compressed_opcode(index: u32) -> (r: Option<CompressedOpcode>)
    ensures
        r == compressed_opcode_at(index),
{
    match index {
        0 => Some(CompressedOpcode::ADDI4SPN),
        1 => Some(CompressedOpcode::LW),
        2 => Some(CompressedOpcode::SW),
        3 => Some(CompressedOpcode::NOP),
        4 => Some(CompressedOpcode::ADDI),
        5 => Some(CompressedOpcode::JAL),
        6 => Some(CompressedOpcode::LI),
        7 => Some(CompressedOpcode::ADDI16SP),
        8 => Some(CompressedOpcode::LUI),
        9 => Some(CompressedOpcode::SRLI),
        10 => Some(CompressedOpcode::SRAI),
        11 => Some(CompressedOpcode::ANDI),
        12 => Some(CompressedOpcode::SUB),
        13 => Some(CompressedOpcode::XOR),
        14 => Some(CompressedOpcode::OR),
        15 => Some(CompressedOpcode::AND),
        16 => Some(CompressedOpcode::J),
        17 => Some(CompressedOpcode::BEQZ),
        18 => Some(CompressedOpcode::BNEZ),
        19 => Some(CompressedOpcode::SLLI),
        20 => Some(CompressedOpcode::LWSP),
        21 => Some(CompressedOpcode::JR),
        22 => Some(CompressedOpcode::MV),
        23 => Some(CompressedOpcode::EBREAK),
        24 => Some(CompressedOpcode::JALR),
        25 => Some(CompressedOpcode::ADD),
        26 => Some(CompressedOpcode::SWSP),
        27 => Some(CompressedOpcode::LD),
        28 => Some(CompressedOpcode::SD),
        29 => Some(CompressedOpcode::ADDIW),
        30 => Some(CompressedOpcode::SUBW),
        31 => Some(CompressedOpcode::ADDW),
        32 => Some(CompressedOpcode::LDSP),
        33 => Some(CompressedOpcode::SDSP),
        _ => None,
    }
}

/// The operation `raw` names: a base or compressed opcode, or another one.
pub open spec fn opcode_of(raw: RawInstruction) -> Opcode {
    if raw.opcode_set == 0 && base_opcode_at(raw.opcode_index) is Some {
        Opcode::BaseI(base_opcode_at(raw.opcode_index)->0)
    } else if raw.opcode_set == 1 && compressed_opcode_at(raw.opcode_index) is Some {
        Opcode::C(compressed_opcode_at(raw.opcode_index)->0)
    } else {
        Opcode::Other
    }
}

/// The instruction `raw` describes.
pub open spec fn instruction_of(raw: RawInstruction) -> RiscVInstruction {
    RiscVInstruction {
        opc: opcode_of(raw),
        rd: raw.rd,
        rs1: raw.rs1,
        rs2: raw.rs2,
        imm: raw.imm,
        is_compressed: raw.is_compressed,
    }
}

/// The instruction `raw` describes.
pub fn from_raw(raw: RawInstruction) -> (r: RiscVInstruction)
    ensures
        r == instruction_of(raw),
{
    let opc = if raw.opcode_set == 0 {
        match base_opcode(raw.opcode_index) {
            Some(op) => Opcode::BaseI(op),
            None => Opcode::Other,
        }
    } else if raw.opcode_set == 1 {
        match compressed_opcode(raw.opcode_index) {
            Some(op) => Opcode::C(op),
            None => Opcode::Other,
        }
    } else {
        Opcode::Other
    };
    RiscVInstruction {
        opc,
        rd: raw.rd,
        rs1: raw.rs1,
        rs2: raw.rs2,
        imm: raw.imm,
        is_compressed: raw.is_compressed,
    }
}

/// The word of the instruction at `span` of `bytes`: its halfword where it is
/// compressed, else its little-endian word.
pub open spec fn span_word(bytes: Seq<u8>, span: InstructionSpan) -> u32 {
    if span.compressed {
        (bytes[span.offset as int] + bytes[span.offset + 1] * 256) as u32
    } else {
        le_word(bytes, span.offset as int)
    }
}

/// Every span of `bytes` from `offset` on lies within `bytes`.
proof fn lemma_spans_within(bytes: Seq<u8>, offset: nat)
    requires
        spans_fit(bytes, offset),
        bytes.len() <= usize::MAX,
    ensures
        forall|k: int|
            0 <= k < spans_from(bytes, offset).len() ==> {
                let s = #[trigger] spans_from(bytes, offset)[k];
                &&& s.offset >= offset
                &&& s.compressed ==> s.offset + 2 <= bytes.len()
                &&& !s.compressed ==> s.offset + 4 <= bytes.len()
                &&& !s.compressed ==> bytes[s.offset as int] % 4 == 3
            },
    decreases bytes.len() + 4 - offset,
{
    if offset + 2 <= bytes.len() {
        if bytes[offset as int] % 4 == 3 {
            lemma_spans_within(bytes, offset + 4);
            assert forall|k: int| 1 <= k < spans_from(bytes, offset).len() implies spans_from(bytes, offset)[k] == spans_from(bytes, offset + 4)[k - 1] by {}
        } else {
            lemma_spans_within(bytes, offset + 2);
            assert forall|k: int| 1 <= k < spans_from(bytes, offset).len() implies spans_from(bytes, offset)[k] == spans_from(bytes, offset + 2)[k - 1] by {}
        }
    }
}

impl RiscV {
    /// Decodes the instructions of `bytes` with `raki`, in order; `None` where `raki`
    /// cannot decode one of them.
    pub fn decode_instructions(&self, bytes: &[u8]) -> (r: Option<Vec<RiscVInstruction>>)
        requires
            spans_fit(bytes@, 0),
        ensures
            match r {
                Some(instructions) => {
                    &&& instructions.len() == spans_from(bytes@, 0).len()
                    &&& forall|k: int|
                        0 <= k < instructions.len() ==> {
                            let span = spans_from(bytes@, 0)[k];
                            &&& raki_decoded(span_word(bytes@, span), span.compressed) is Some
                            &&& #[trigger] instructions[k] == instruction_of(
                                raki_decoded(span_word(bytes@, span), span.compressed)->0,
                            )
                            &&& instructions[k].is_compressed == span.compressed
                        }
                },
                None => exists|k: int|
                    0 <= k < spans_from(bytes@, 0).len() && raki_decoded(
                        span_word(bytes@, #[trigger] spans_from(bytes@, 0)[k]),
                        spans_from(bytes@, 0)[k].compressed,
                    ) is None,
            },
    {
        let spans = self.instruction_spans(bytes);
        proof {
            assert(bytes@.len() == bytes.len());
            lemma_spans_within(bytes@, 0);
        }
        let mut instructions: Vec<RiscVInstruction> = Vec::new();
        let mut k: usize = 0;
        while k < spans.len()
            invariant
                k <= spans.len(),
                spans@ == spans_from(bytes@, 0),
                forall|j: int|
                    0 <= j < spans.len() ==> {
                        let s = #[trigger] spans@[j];
                        &&& s.compressed ==> s.offset + 2 <= bytes.len()
                        &&& !s.compressed ==> s.offset + 4 <= bytes.len()
                    },
                instructions.len() == k,
                forall|j: int|
                    0 <= j < k ==> {
                        let span = spans@[j];
                        &&& raki_decoded(span_word(bytes@, span), span.compressed) is Some
                        &&& #[trigger] instructions[j] == instruction_of(
                            raki_decoded(span_word(bytes@, span), span.compressed)->0,
                        )
                        &&& instructions[j].is_compressed == span.compressed
                    },
            decreases spans.len() - k,
        {
            let span = spans[k];
            let word = if span.compressed {
                (bytes[span.offset] as u32) + (bytes[span.offset + 1] as u32) * 256
            } else {
                read_le_word(bytes, span.offset)
            };
            match decode_word(word, span.compressed) {
                Some(raw) => {
                    instructions.push(from_raw(raw));
                },
                None => {
                    return None;
                },
            }
            k = k + 1;
        }
        Some(instructions)
    }
}

} // verus!
