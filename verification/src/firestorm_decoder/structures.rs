use vstd::prelude::*;
use vstd::arithmetic::power2::{pow2, lemma2_to64};
use crate::arm_decoder::utilities::{decode_bool, field, get_bits, sign_extend, sign_extended};

verus! {

/// A general purpose register operand, the stack pointer or the zero register.
#[derive(Debug, Clone, Copy, PartialEq, Eq, Hash)]
pub enum Register {
    X0,
    X1,
    X2,
    X3,
    X4,
    X5,
    X6,
    X7,
    X8,
    X9,
    X10,
    X11,
    X12,
    X13,
    X14,
    X15,
    X16,
    X17,
    X18,
    X19,
    X20,
    X21,
    X22,
    X23,
    X24,
    X25,
    X26,
    X27,
    X28,
    X29,
    X30,
    SP,
    XZR,
}

/// The register with encoding `n` (`n < 32`); encoding 31 names the zero register in
/// `zero_mode` and the stack pointer otherwise.
pub open spec fn register_from(n: u32, zero_mode: bool) -> Register {
    match n {
        0 => Register::X0,
        1 => Register::X1,
        2 => Register::X2,
        3 => Register::X3,
        4 => Register::X4,
        5 => Register::X5,
        6 => Register::X6,
        7 => Register::X7,
        8 => Register::X8,
        9 => Register::X9,
        10 => Register::X10,
        11 => Register::X11,
        12 => Register::X12,
        13 => Register::X13,
        14 => Register::X14,
        15 => Register::X15,
        16 => Register::X16,
        17 => Register::X17,
        18 => Register::X18,
        19 => Register::X19,
        20 => Register::X20,
        21 => Register::X21,
        22 => Register::X22,
        23 => Register::X23,
        24 => Register::X24,
        25 => Register::X25,
        26 => Register::X26,
        27 => Register::X27,
        28 => Register::X28,
        29 => Register::X29,
        30 => Register::X30,
        _ => if zero_mode { Register::XZR } else { Register::SP },
    }
}

impl Register {
    /// Decodes a five-bit register field.
    fn decode(value: u32, zero_mode: bool) -> (r: Self)
        requires
            value < 32,
        ensures
            r == register_from(value, zero_mode),
    {
        match value {
            0 => Register::X0,
            1 => Register::X1,
            2 => Register::X2,
            3 => Register::X3,
            4 => Register::X4,
            5 => Register::X5,
            6 => Register::X6,
            7 => Register::X7,
            8 => Register::X8,
            9 => Register::X9,
            10 => Register::X10,
            11 => Register::X11,
            12 => Register::X12,
            13 => Register::X13,
            14 => Register::X14,
            15 => Register::X15,
            16 => Register::X16,
            17 => Register::X17,
            18 => Register::X18,
            19 => Register::X19,
            20 => Register::X20,
            21 => Register::X21,
            22 => Register::X22,
            23 => Register::X23,
            24 => Register::X24,
            25 => Register::X25,
            26 => Register::X26,
            27 => Register::X27,
            28 => Register::X28,
            29 => Register::X29,
            30 => Register::X30,
            _ => {
                if zero_mode {
                    Register::XZR
                } else {
                    Register::SP
                }
            }
        }
    }
}

/// The operand width of a data processing instruction.
#[derive(Debug, Clone, Copy, PartialEq, Eq, Hash)]
pub enum SizeVariant {
    Reg32,
    Reg64,
}


/// A memory address: a base register and how the offset is applied.
#[derive(Debug, Clone, Copy, PartialEq, Eq, Hash)]
pub struct Address {
    pub base: Register,
    pub mode: AddressingMode,
}

/// How an immediate offset is applied to the base register of an access.
#[derive(Debug, Clone, Copy, PartialEq, Eq, Hash)]
pub enum AddressingMode {
    PostIndexWithWriteback { offset: i32 },
    PreIndex { offset: i32 },
    PreIndexWithWriteback { offset: i32 },
}

impl AddressingMode {
    /// The offset from the base register at which the access happens.
    pub fn access_offset(&self) -> (r: i32)
        ensures
            r == (match *self {
                AddressingMode::PostIndexWithWriteback { .. } => 0i32,
                AddressingMode::PreIndex { offset } => offset,
                AddressingMode::PreIndexWithWriteback { offset } => offset,
            }),
    {
        match self {
            AddressingMode::PostIndexWithWriteback { offset } => 0,
            AddressingMode::PreIndex { offset } => *offset,
            AddressingMode::PreIndexWithWriteback { offset } => *offset,
        }
    }

    /// The offset added to the base register after the access, if the mode writes back.
    pub fn writeback_offset(&self) -> (r: Option<i32>)
        ensures
            r == (match *self {
                AddressingMode::PostIndexWithWriteback { offset } => Some(offset),
                AddressingMode::PreIndex { .. } => None,
                AddressingMode::PreIndexWithWriteback { offset } => Some(offset),
            }),
    {
        match self {
            AddressingMode::PostIndexWithWriteback { offset } => Some(*offset),
            AddressingMode::PreIndex { .. } => None,
            AddressingMode::PreIndexWithWriteback { offset } => Some(*offset),
        }
    }
}

/// The register named by the five bits of `v` at `start`.
pub open spec fn reg(v: u32, start: u32, zero_mode: bool) -> Register {
    register_from(field(v, start, 5) as u32, zero_mode)
}

/// Whether bit `i` of `v` is set.
pub open spec fn bit(v: u32, i: u32) -> bool {
    field(v, i, 1) == 1
}

/// The operand width selected by bit 31.
pub open spec fn variant_of(v: u32) -> SizeVariant {
    if bit(v, 31) {
        SizeVariant::Reg64
    } else {
        SizeVariant::Reg32
    }
}

/// The `size`-bit field of `v` at `start` read as a signed number.
pub open spec fn simm(v: u32, start: u32, size: u32) -> int {
    sign_extended(field(v, start, size) as u32, size)
}

struct InstructionBytes(u32);

impl InstructionBytes {
    fn bool(&self, start: u32) -> (r: bool)
        requires
            start < 32,
        ensures
            r == bit(self.0, start),
    {
        decode_bool(self.0, start)
    }

    fn immediate(&self, start: u32, size: u32, signed: bool) -> (r: i32)
        requires
            start < 32,
            1 <= size < 32,
        ensures
            r as int == (if signed {
                simm(self.0, start, size)
            } else {
                field(self.0, start, size) as int
            }),
            signed ==> -(pow2((size - 1) as nat) as int) <= r < pow2((size - 1) as nat),
    {
        let value = get_bits(self.0, start, size);
        proof {
            vstd::arithmetic::power2::lemma_pow2_pos(size as nat);
            vstd::bits::lemma_u32_pow2_no_overflow(size as nat);
            if size < 31 {
                vstd::arithmetic::power2::lemma_pow2_strictly_increases(size as nat, 31);
            }
            lemma2_to64();
        }
        if signed {
            sign_extend(value, size)
        } else {
            value as i32
        }
    }

    fn immediate_unsigned(&self, start: u32, size: u32) -> (r: u32)
        requires
            start < 32,
            size < 32,
        ensures
            r as nat == field(self.0, start, size),
            (r as nat) < pow2(size as nat),
    {
        proof {
            vstd::arithmetic::power2::lemma_pow2_pos(size as nat);
        }
        get_bits(self.0, start, size)
    }

    fn register(&self, start: u32, zero_mode: bool) -> (r: Register)
        requires
            start < 32,
        ensures
            r == reg(self.0, start, zero_mode),
    {
        let value = get_bits(self.0, start, 5);
        proof {
            vstd::arithmetic::power2::lemma_pow2_pos(5);
            lemma2_to64();
        }
        Register::decode(value, zero_mode)
    }

    fn variant(&self) -> (r: SizeVariant)
        ensures
            r == variant_of(self.0),
    {
        if decode_bool(self.0, 31) {
            SizeVariant::Reg64
        } else {
            SizeVariant::Reg32
        }
    }
}

/// A shift applied to a register operand.
#[derive(Debug, Clone, Copy, PartialEq, Eq, Hash)]
pub enum Shift {
    LSL,
    LSR,
    ASR,
    ROR,
}

/// The shift with two-bit encoding `n`.
pub open spec fn shift_from(n: u32) -> Shift {
    if n == 0 {
        Shift::LSL
    } else if n == 1 {
        Shift::LSR
    } else if n == 2 {
        Shift::ASR
    } else {
        Shift::ROR
    }
}

impl Shift {
    /// Decodes a two-bit shift type; the rotation is only valid where `allow_ror` holds.
    fn decode(value: u32, allow_ror: bool) -> (r: Self)
        requires
            value < 4,
            value == 3 ==> allow_ror,
        ensures
            r == shift_from(value),
    {
        match value {
            0b00 => Shift::LSL,
            0b01 => Shift::LSR,
            0b10 => Shift::ASR,
            _ => Shift::ROR,
        }
    }
}

/// The width of a memory access.
#[derive(Debug, Clone, Copy, PartialEq, Eq)]
enum SliceSize {
    Byte,
    Halfword,
    Word,
    Doubleword,
}

/// A zero or sign extension from a narrower width.
#[derive(Debug, Clone, Copy, PartialEq, Eq)]
struct Extension {
    size: SliceSize,
    signed: bool,
}

} // verus!
