use vstd::prelude::*;
use crate::arm_decoder::utilities::{
    decode_bool, field, get_bits, sign_extend, sign_extended,
};
use vstd::arithmetic::power2::{pow2, lemma2_to64};

verus! {

/// An AArch64 register operand: the general purpose registers, the stack pointer,
/// the zero register, and the SIMD and floating-point registers.
#[derive(Debug, Clone, Copy, PartialEq, Eq, Hash)]
pub enum Register {
    X0,
    X1,
    X2,
    X3,
    X4,
    X5,
    X6,
    X7,
    X8,
    X9,
    X10,
    X11,
    X12,
    X13,
    X14,
    X15,
    X16,
    X17,
    X18,
    X19,
    X20,
    X21,
    X22,
    X23,
    X24,
    X25,
    X26,
    X27,
    X28,
    X29,
    X30,
    SP,
    XZR,
    V0,
    V1,
    V2,
    V3,
    V4,
    V5,
    V6,
    V7,
    V8,
    V9,
    V10,
    V11,
    V12,
    V13,
    V14,
    V15,
    V16,
    V17,
    V18,
    V19,
    V20,
    V21,
    V22,
    V23,
    V24,
    V25,
    V26,
    V27,
    V28,
    V29,
    V30,
    V31,
}

/// The general purpose register with encoding `n` (`n < 32`); encoding 31 names the
/// stack pointer in `sp_mode` and the zero register otherwise.
pub open spec fn register_from(n: u32, sp_mode: bool) -> Register {
    match n {
        0 => Register::X0,
        1 => Register::X1,
        2 => Register::X2,
        3 => Register::X3,
        4 => Register::X4,
        5 => Register::X5,
        6 => Register::X6,
        7 => Register::X7,
        8 => Register::X8,
        9 => Register::X9,
        10 => Register::X10,
        11 => Register::X11,
        12 => Register::X12,
        13 => Register::X13,
        14 => Register::X14,
        15 => Register::X15,
        16 => Register::X16,
        17 => Register::X17,
        18 => Register::X18,
        19 => Register::X19,
        20 => Register::X20,
        21 => Register::X21,
        22 => Register::X22,
        23 => Register::X23,
        24 => Register::X24,
        25 => Register::X25,
        26 => Register::X26,
        27 => Register::X27,
        28 => Register::X28,
        29 => Register::X29,
        30 => Register::X30,
        _ => if sp_mode { Register::SP } else { Register::XZR },
    }
}

/// The SIMD and floating-point register with encoding `n` (`n < 32`).
pub open spec fn simd_register_from(n: u32) -> Register {
    match n {
        0 => Register::V0,
        1 => Register::V1,
        2 => Register::V2,
        3 => Register::V3,
        4 => Register::V4,
        5 => Register::V5,
        6 => Register::V6,
        7 => Register::V7,
        8 => Register::V8,
        9 => Register::V9,
        10 => Register::V10,
        11 => Register::V11,
        12 => Register::V12,
        13 => Register::V13,
        14 => Register::V14,
        15 => Register::V15,
        16 => Register::V16,
        17 => Register::V17,
        18 => Register::V18,
        19 => Register::V19,
        20 => Register::V20,
        21 => Register::V21,
        22 => Register::V22,
        23 => Register::V23,
        24 => Register::V24,
        25 => Register::V25,
        26 => Register::V26,
        27 => Register::V27,
        28 => Register::V28,
        29 => Register::V29,
        30 => Register::V30,
        _ => Register::V31,
    }
}

impl Register {
    /// Decodes a five-bit general purpose register field.
    pub fn decode(value: u32, sp_mode: bool) -> (r: Self)
        requires
            value < 32,
        ensures
            r == register_from(value, sp_mode),
    {
        match value {
            0 => Register::X0,
            1 => Register::X1,
            2 => Register::X2,
            3 => Register::X3,
            4 => Register::X4,
            5 => Register::X5,
            6 => Register::X6,
            7 => Register::X7,
            8 => Register::X8,
            9 => Register::X9,
            10 => Register::X10,
            11 => Register::X11,
            12 => Register::X12,
            13 => Register::X13,
            14 => Register::X14,
            15 => Register::X15,
            16 => Register::X16,
            17 => Register::X17,
            18 => Register::X18,
            19 => Register::X19,
            20 => Register::X20,
            21 => Register::X21,
            22 => Register::X22,
            23 => Register::X23,
            24 => Register::X24,
            25 => Register::X25,
            26 => Register::X26,
            27 => Register::X27,
            28 => Register::X28,
            29 => Register::X29,
            30 => Register::X30,
            _ => {
                if sp_mode {
                    Register::SP
                } else {
                    Register::XZR
                }
            }
        }
    }

    /// Decodes a five-bit SIMD and floating-point register field.
    pub fn decode_simd(value: u32) -> (r: Self)
        requires
            value < 32,
        ensures
            r == simd_register_from(value),
    {
        match value {
            0 => Register::V0,
            1 => Register::V1,
            2 => Register::V2,
            3 => Register::V3,
            4 => Register::V4,
            5 => Register::V5,
            6 => Register::V6,
            7 => Register::V7,
            8 => Register::V8,
            9 => Register::V9,
            10 => Register::V10,
            11 => Register::V11,
            12 => Register::V12,
            13 => Register::V13,
            14 => Register::V14,
            15 => Register::V15,
            16 => Register::V16,
            17 => Register::V17,
            18 => Register::V18,
            19 => Register::V19,
            20 => Register::V20,
            21 => Register::V21,
            22 => Register::V22,
            23 => Register::V23,
            24 => Register::V24,
            25 => Register::V25,
            26 => Register::V26,
            27 => Register::V27,
            28 => Register::V28,
            29 => Register::V29,
            30 => Register::V30,
            _ => Register::V31,
        }
    }
}

/// The operand width of a data processing instruction.
#[derive(Debug, Clone, Copy, PartialEq, Eq, Hash)]
pub enum SizeVariant {
    Reg32,
    Reg64,
}

impl SizeVariant {
    /// Width of the operands in bytes.
    pub fn byte_count(&self) -> (r: u64)
        ensures
            r == (match self {
                SizeVariant::Reg32 => 4u64,
                SizeVariant::Reg64 => 8u64,
            }),
    {
        match self {
            SizeVariant::Reg32 => 4,
            SizeVariant::Reg64 => 8,
        }
    }

    /// Base two logarithm of the operand width in bytes.
    pub fn log_byte_count(&self) -> (r: u64)
        ensures
            r == (match self {
                SizeVariant::Reg32 => 2u64,
                SizeVariant::Reg64 => 3u64,
            }),
    {
        match self {
            SizeVariant::Reg32 => 2,
            SizeVariant::Reg64 => 3,
        }
    }
}

/// The offset used for a memory access, and the offset added to the base register
/// afterwards when the addressing mode writes back.
#[derive(Debug, Clone, Copy, PartialEq, Eq, Hash)]
pub struct WritebackOffset {
    pub access: i32,
    pub writeback: Option<i32>,
}

/// A raw 32-bit instruction word.
#[derive(Debug, Clone, Copy, PartialEq, Eq, Hash)]
pub struct InstructionBytes(pub u32);

/// Whether bit `i` of the word `v` is set.
pub open spec fn bit(v: u32, i: u32) -> bool {
    field(v, i, 1) == 1
}

/// The general purpose register named by the five bits of `v` at `start`.
pub open spec fn reg(v: u32, start: u32, sp_mode: bool) -> Register {
    register_from(field(v, start, 5) as u32, sp_mode)
}

/// The SIMD and floating-point register named by the five bits of `v` at `start`.
pub open spec fn simd_reg(v: u32, start: u32) -> Register {
    simd_register_from(field(v, start, 5) as u32)
}

/// The operand width selected by bit 31 (the `sf` bit).
pub open spec fn variant_of(v: u32) -> SizeVariant {
    if bit(v, 31) {
        SizeVariant::Reg64
    } else {
        SizeVariant::Reg32
    }
}

/// The `size`-bit field of `v` at `start` read as a signed number.
pub open spec fn simm(v: u32, start: u32, size: u32) -> int {
    sign_extended(field(v, start, size) as u32, size)
}

/// Facts about field widths used throughout the decoders.
pub proof fn lemma_field_bound(v: u32, start: u32, size: u32)
    requires
        size <= 32,
    ensures
        field(v, start, size) < pow2(size as nat),
        size == 1 ==> field(v, start, size) < 2,
        size == 2 ==> field(v, start, size) < 4,
        size == 3 ==> field(v, start, size) < 8,
        size == 4 ==> field(v, start, size) < 16,
        size == 5 ==> field(v, start, size) < 32,
        size == 6 ==> field(v, start, size) < 64,
{
    vstd::arithmetic::power2::lemma_pow2_pos(size as nat);
    lemma2_to64();
}

impl InstructionBytes {
    /// Whether bit `start` is set.
    pub fn bool(&self, start: u32) -> (r: bool)
        requires
            start < 32,
        ensures
            r == bit(self.0, start),
    {
        decode_bool(self.0, start)
    }

    /// The `size`-bit field at `start`, sign extended when `signed` holds.
    pub fn immediate(&self, start: u32, size: u32, signed: bool) -> (r: i32)
        requires
            start < 32,
            1 <= size < 32,
        ensures
            r as int == (if signed {
                simm(self.0, start, size)
            } else {
                field(self.0, start, size) as int
            }),
            signed ==> -(pow2((size - 1) as nat) as int) <= r < pow2((size - 1) as nat),
            !signed ==> 0 <= r < pow2(size as nat),
    {
        let value = get_bits(self.0, start, size);
        proof {
            lemma_field_bound(self.0, start, size);
            vstd::bits::lemma_u32_pow2_no_overflow(size as nat);
            if size < 31 {
                vstd::arithmetic::power2::lemma_pow2_strictly_increases(size as nat, 31);
            }
            lemma2_to64();
            vstd::arithmetic::power2::lemma2_to64_rest();
        }
        if signed {
            sign_extend(value, size)
        } else {
            value as i32
        }
    }

    /// The unsigned `size`-bit field at `start`.
    pub fn immediate_unsigned(&self, start: u32, size: u32) -> (r: u32)
        requires
            start < 32,
            size < 32,
        ensures
            r as nat == field(self.0, start, size),
            (r as nat) < pow2(size as nat),
    {
        proof {
            lemma_field_bound(self.0, start, size);
        }
        get_bits(self.0, start, size)
    }

    /// The general purpose register named by the five bits at `start`.
    pub fn register(&self, start: u32, sp_mode: bool) -> (r: Register)
        requires
            start < 32,
        ensures
            r == reg(self.0, start, sp_mode),
    {
        let value = get_bits(self.0, start, 5);
        proof {
            lemma_field_bound(self.0, start, 5);
        }
        Register::decode(value, sp_mode)
    }

    /// The SIMD and floating-point register named by the five bits at `start`.
    pub fn register_simd(&self, start: u32) -> (r: Register)
        requires
            start < 32,
        ensures
            r == simd_reg(self.0, start),
    {
        let value = get_bits(self.0, start, 5);
        proof {
            lemma_field_bound(self.0, start, 5);
        }
        Register::decode_simd(value)
    }

    /// The operand width selected by bit 31.
    pub fn variant(&self) -> (r: SizeVariant)
        ensures
            r == variant_of(self.0),
    {
        if decode_bool(self.0, 31) {
            SizeVariant::Reg64
        } else {
            SizeVariant::Reg32
        }
    }
}

/// A shift applied to a register operand.
#[derive(Debug, Clone, Copy, PartialEq, Eq, Hash)]
pub enum Shift {
    LSL,
    LSR,
    ASR,
    ROR,
}

/// The shift with two-bit encoding `n`.
pub open spec fn shift_from(n: u32) -> Shift {
    if n == 0 {
        Shift::LSL
    } else if n == 1 {
        Shift::LSR
    } else if n == 2 {
        Shift::ASR
    } else {
        Shift::ROR
    }
}

impl Shift {
    /// Decodes a two-bit shift type; the rotation is only valid where `allow_ror` holds.
    pub fn decode(value: u32, allow_ror: bool) -> (r: Self)
        requires
            value < 4,
            value == 3 ==> allow_ror,
        ensures
            r == shift_from(value),
    {
        match value {
            0b00 => Shift::LSL,
            0b01 => Shift::LSR,
            0b10 => Shift::ASR,
            _ => Shift::ROR,
        }
    }
}

/// The size of a memory access or of an extended register slice.
#[derive(Debug, Clone, Copy, PartialEq, Eq, Hash)]
pub enum SliceSize {
    Byte,
    Halfword,
    Word,
    Doubleword,
}

/// The slice size with two-bit encoding `n`.
pub open spec fn slice_size_from(n: u32) -> SliceSize {
    if n == 0 {
        SliceSize::Byte
    } else if n == 1 {
        SliceSize::Halfword
    } else if n == 2 {
        SliceSize::Word
    } else {
        SliceSize::Doubleword
    }
}

impl SliceSize {
    /// The number of bytes of the slice.
    pub open spec fn bytes(self) -> u64 {
        match self {
            SliceSize::Byte => 1,
            SliceSize::Halfword => 2,
            SliceSize::Word => 4,
            SliceSize::Doubleword => 8,
        }
    }

    /// The base two logarithm of the number of bytes of the slice.
    pub open spec fn log_bytes(self) -> u64 {
        match self {
            SliceSize::Byte => 0,
            SliceSize::Halfword => 1,
            SliceSize::Word => 2,
            SliceSize::Doubleword => 3,
        }
    }

    /// The number of bytes of the slice.
    pub fn byte_count(&self) -> (r: u64)
        ensures
            r == self.bytes(),
    {
        match self {
            SliceSize::Byte => 1,
            SliceSize::Halfword => 2,
            SliceSize::Word => 4,
            SliceSize::Doubleword => 8,
        }
    }

    /// The base two logarithm of the number of bytes of the slice.
    pub fn log_byte_count(&self) -> (r: u64)
        ensures
            r == self.log_bytes(),
    {
        match self {
            SliceSize::Byte => 0,
            SliceSize::Halfword => 1,
            SliceSize::Word => 2,
            SliceSize::Doubleword => 3,
        }
    }
}

/// A zero or sign extension of the low slice of a register.
#[derive(Debug, Clone, Copy, PartialEq, Eq, Hash)]
pub struct Extension {
    pub size: SliceSize,
    pub signed: bool,
}

impl Extension {
    /// Zero extension of the low byte.
    pub fn uxtb() -> (r: Extension)
        ensures
            r == (Extension { size: SliceSize::Byte, signed: false }),
    {
        Extension { size: SliceSize::Byte, signed: false }
    }

    /// Sign extension of the low byte.
    pub fn sxtb() -> (r: Extension)
        ensures
            r == (Extension { size: SliceSize::Byte, signed: true }),
    {
        Extension { size: SliceSize::Byte, signed: true }
    }

    /// Zero extension of the low word.
    pub fn uxtw() -> (r: Extension)
        ensures
            r == (Extension { size: SliceSize::Word, signed: false }),
    {
        Extension { size: SliceSize::Word, signed: false }
    }

    /// Sign extension of the low word.
    pub fn sxtw() -> (r: Extension)
        ensures
            r == (Extension { size: SliceSize::Word, signed: true }),
    {
        Extension { size: SliceSize::Word, signed: true }
    }

    /// The whole doubleword, read as signed.
    pub fn sxtx() -> (r: Extension)
        ensures
            r == (Extension { size: SliceSize::Doubleword, signed: true }),
    {
        Extension { size: SliceSize::Doubleword, signed: true }
    }

    /// The whole doubleword, read as unsigned.
    pub fn uxtx() -> (r: Extension)
        ensures
            r == (Extension { size: SliceSize::Doubleword, signed: false }),
    {
        Extension { size: SliceSize::Doubleword, signed: false }
    }
}

/// A transformation applied to an index register.
#[derive(Debug, Clone, Copy, PartialEq, Eq, Hash)]
pub enum Transform {
    Extension(Extension),
    LeftShift,
}

/// How a narrow value is widened.
#[derive(Debug, Clone, Copy, PartialEq, Eq, Hash)]
pub enum Promotion {
    P32 { sign_extend: bool },
    P64,
}

/// A condition on the NZCV flags.
#[derive(Debug, Clone, Copy, PartialEq, Eq, Hash)]
pub enum Condition {
    EQ,  // Equal
    NE,  // Not equal
    CS,  // Carry set
    CC,  // Carry clear
    MI,  // Minus
    PL,  // Plus
    VS,  // Overflow
    VC,  // No overflow
    HI,  // Unsigned higher
    LS,  // Unsigned lower or same
    GE,  // Signed greater than or equal
    LT,  // Signed less than
    GT,  // Signed greater than
    LE,  // Signed less than or equal
    AL,  // Always
    NV,  // Never (unpredictable)
}

/// The condition with four-bit encoding `n`.
pub open spec fn condition_from(n: u32) -> Condition {
    match n {
        0 => Condition::EQ,
        1 => Condition::NE,
        2 => Condition::CS,
        3 => Condition::CC,
        4 => Condition::MI,
        5 => Condition::PL,
        6 => Condition::VS,
        7 => Condition::VC,
        8 => Condition::HI,
        9 => Condition::LS,
        10 => Condition::GE,
        11 => Condition::LT,
        12 => Condition::GT,
        13 => Condition::LE,
        14 => Condition::AL,
        _ => Condition::NV,
    }
}

impl Condition {
    /// Decodes a four-bit condition; `AL` and `NV` are only valid where
    /// `allow_al_and_nv` holds.
    pub fn decode(value: u32, allow_al_and_nv: bool) -> (r: Self)
        requires
            value < 16,
            value >= 14 ==> allow_al_and_nv,
        ensures
            r == condition_from(value),
    {
        match value {
            0b0000 => Condition::EQ,
            0b0001 => Condition::NE,
            0b0010 => Condition::CS,
            0b0011 => Condition::CC,
            0b0100 => Condition::MI,
            0b0101 => Condition::PL,
            0b0110 => Condition::VS,
            0b0111 => Condition::VC,
            0b1000 => Condition::HI,
            0b1001 => Condition::LS,
            0b1010 => Condition::GE,
            0b1011 => Condition::LT,
            0b1100 => Condition::GT,
            0b1101 => Condition::LE,
            0b1110 => Condition::AL,
            _ => Condition::NV,
        }
    }
}

/// The precision of a scalar floating-point operation.
#[derive(Debug, Clone, Copy, PartialEq, Eq, Hash)]
pub enum FPSize {
    Half,
    Single,
    Double,
}

/// The arrangement of the lanes of a SIMD register.
#[derive(Debug, Clone, Copy, PartialEq, Eq, Hash)]
pub enum Arrangement {
    B8,
    B16,
    H4,
    H8,
    S2,
    S4,
    D2,
    B1,
    H1,
    S1,
    D1,
}


/// Bit `i` of `v`, read through the field decoder, is the bit `1 << i` of the word.
pub proof fn lemma_bit_is_mask(v: u32, i: u32)
    requires
        i < 32,
    ensures
        bit(v, i) == (v & (1u32 << i) != 0),
{
    vstd::bits::lemma_u32_shr_is_div(v, i);
    vstd::arithmetic::power2::lemma2_to64();
    assert(crate::arm_decoder::utilities::field(v, i, 1) == (v >> i) as nat % 2);
    assert(((v >> i) % 2 == 1) == (v & (1u32 << i) != 0)) by (bit_vector)
        requires
            i < 32,
    ;
}

} // verus!
