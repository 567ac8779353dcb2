use vstd::prelude::*;
use vstd::arithmetic::power2::{pow2, lemma2_to64};
use vstd::bits::lemma_u64_shl_is_mul;
use crate::arm_decoder::utilities::{
    INSTRUCTION_SIZE, decode_bool, equal_masked, field, get_bits, le_word, read_le_word,
    sign_extend, sign_extended,
};

verus! {

/// A general purpose register operand, the stack pointer or the zero register.
#[derive(Debug, Clone, Copy, PartialEq, Eq, Hash)]
pub enum Register {
    X0,
    X1,
    X2,
    X3,
    X4,
    X5,
    X6,
    X7,
    X8,
    X9,
    X10,
    X11,
    X12,
    X13,
    X14,
    X15,
    X16,
    X17,
    X18,
    X19,
    X20,
    X21,
    X22,
    X23,
    X24,
    X25,
    X26,
    X27,
    X28,
    X29,
    X30,
    SP,
    XZR,
}

/// The register with encoding `n` (`n < 32`); encoding 31 names the zero register in
/// `zero_mode` and the stack pointer otherwise.
pub open spec fn register_from(n: u32, zero_mode: bool) -> Register {
    match n {
        0 => Register::X0,
        1 => Register::X1,
        2 => Register::X2,
        3 => Register::X3,
        4 => Register::X4,
        5 => Register::X5,
        6 => Register::X6,
        7 => Register::X7,
        8 => Register::X8,
        9 => Register::X9,
        10 => Register::X10,
        11 => Register::X11,
        12 => Register::X12,
        13 => Register::X13,
        14 => Register::X14,
        15 => Register::X15,
        16 => Register::X16,
        17 => Register::X17,
        18 => Register::X18,
        19 => Register::X19,
        20 => Register::X20,
        21 => Register::X21,
        22 => Register::X22,
        23 => Register::X23,
        24 => Register::X24,
        25 => Register::X25,
        26 => Register::X26,
        27 => Register::X27,
        28 => Register::X28,
        29 => Register::X29,
        30 => Register::X30,
        _ => if zero_mode { Register::XZR } else { Register::SP },
    }
}

impl Register {
    /// Decodes a five-bit register field.
    pub fn decode(value: u32, zero_mode: bool) -> (r: Self)
        requires
            value < 32,
        ensures
            r == register_from(value, zero_mode),
    {
        match value {
            0 => Register::X0,
            1 => Register::X1,
            2 => Register::X2,
            3 => Register::X3,
            4 => Register::X4,
            5 => Register::X5,
            6 => Register::X6,
            7 => Register::X7,
            8 => Register::X8,
            9 => Register::X9,
            10 => Register::X10,
            11 => Register::X11,
            12 => Register::X12,
            13 => Register::X13,
            14 => Register::X14,
            15 => Register::X15,
            16 => Register::X16,
            17 => Register::X17,
            18 => Register::X18,
            19 => Register::X19,
            20 => Register::X20,
            21 => Register::X21,
            22 => Register::X22,
            23 => Register::X23,
            24 => Register::X24,
            25 => Register::X25,
            26 => Register::X26,
            27 => Register::X27,
            28 => Register::X28,
            29 => Register::X29,
            30 => Register::X30,
            _ => {
                if zero_mode {
                    Register::XZR
                } else {
                    Register::SP
                }
            }
        }
    }
}

/// The operand width of a data processing instruction.
#[derive(Debug, Clone, Copy, PartialEq, Eq, Hash)]
pub enum SizeVariant {
    Reg32,
    Reg64,
}

/// A register together with the width at which it is accessed.
#[derive(Debug, Clone, Copy, PartialEq, Eq, Hash)]
pub struct SizedRegister {
    pub register: Register,
    pub variant: SizeVariant,
}

/// A memory address: a base register and how the offset is applied.
#[derive(Debug, Clone, Copy, PartialEq, Eq, Hash)]
pub struct Address {
    pub base: Register,
    pub mode: AddressingMode,
}

/// How an immediate offset is applied to the base register of an access.
#[derive(Debug, Clone, Copy, PartialEq, Eq, Hash)]
pub enum AddressingMode {
    PostIndexWithWriteback { offset: i32 },
    PreIndex { offset: i32 },
    PreIndexWithWriteback { offset: i32 },
}

impl AddressingMode {
    /// The offset from the base register at which the access happens.
    pub fn access_offset(&self) -> (r: i32)
        ensures
            r == (match *self {
                AddressingMode::PostIndexWithWriteback { .. } => 0i32,
                AddressingMode::PreIndex { offset } => offset,
                AddressingMode::PreIndexWithWriteback { offset } => offset,
            }),
    {
        match self {
            AddressingMode::PostIndexWithWriteback { offset } => 0,
            AddressingMode::PreIndex { offset } => *offset,
            AddressingMode::PreIndexWithWriteback { offset } => *offset,
        }
    }

    /// The offset added to the base register after the access, if the mode writes back.
    pub fn writeback_offset(&self) -> (r: Option<i32>)
        ensures
            r == (match *self {
                AddressingMode::PostIndexWithWriteback { offset } => Some(offset),
                AddressingMode::PreIndex { .. } => None,
                AddressingMode::PreIndexWithWriteback { offset } => Some(offset),
            }),
    {
        match self {
            AddressingMode::PostIndexWithWriteback { offset } => Some(*offset),
            AddressingMode::PreIndex { .. } => None,
            AddressingMode::PreIndexWithWriteback { offset } => Some(*offset),
        }
    }
}

/// The register named by the five bits of `v` at `start`.
pub open spec fn reg(v: u32, start: u32, zero_mode: bool) -> Register {
    register_from(field(v, start, 5) as u32, zero_mode)
}

/// Whether bit `i` of `v` is set.
pub open spec fn bit(v: u32, i: u32) -> bool {
    field(v, i, 1) == 1
}

/// The operand width selected by bit 31.
pub open spec fn variant_of(v: u32) -> SizeVariant {
    if bit(v, 31) {
        SizeVariant::Reg64
    } else {
        SizeVariant::Reg32
    }
}

/// The `size`-bit field of `v` at `start` read as a signed number.
pub open spec fn simm(v: u32, start: u32, size: u32) -> int {
    sign_extended(field(v, start, size) as u32, size)
}

struct InstructionBytes(u32);

impl InstructionBytes {
    fn bool(&self, start: u32) -> (r: bool)
        requires
            start < 32,
        ensures
            r == bit(self.0, start),
    {
        decode_bool(self.0, start)
    }

    fn immediate(&self, start: u32, size: u32, signed: bool) -> (r: i32)
        requires
            start < 32,
            1 <= size < 32,
        ensures
            r as int == (if signed {
                simm(self.0, start, size)
            } else {
                field(self.0, start, size) as int
            }),
            signed ==> -(pow2((size - 1) as nat) as int) <= r < pow2((size - 1) as nat),
    {
        let value = get_bits(self.0, start, size);
        proof {
            vstd::arithmetic::power2::lemma_pow2_pos(size as nat);
            vstd::bits::lemma_u32_pow2_no_overflow(size as nat);
            if size < 31 {
                vstd::arithmetic::power2::lemma_pow2_strictly_increases(size as nat, 31);
            }
            lemma2_to64();
        }
        if signed {
            sign_extend(value, size)
        } else {
            value as i32
        }
    }

    fn immediate_unsigned(&self, start: u32, size: u32) -> (r: u32)
        requires
            start < 32,
            size < 32,
        ensures
            r as nat == field(self.0, start, size),
            (r as nat) < pow2(size as nat),
    {
        proof {
            vstd::arithmetic::power2::lemma_pow2_pos(size as nat);
        }
        get_bits(self.0, start, size)
    }

    fn register(&self, start: u32, zero_mode: bool) -> (r: Register)
        requires
            start < 32,
        ensures
            r == reg(self.0, start, zero_mode),
    {
        let value = get_bits(self.0, start, 5);
        proof {
            vstd::arithmetic::power2::lemma_pow2_pos(5);
            lemma2_to64();
        }
        Register::decode(value, zero_mode)
    }

    fn variant(&self) -> (r: SizeVariant)
        ensures
            r == variant_of(self.0),
    {
        if decode_bool(self.0, 31) {
            SizeVariant::Reg64
        } else {
            SizeVariant::Reg32
        }
    }
}

/// The extension applied to an index register.
#[derive(Debug, Clone, Copy, PartialEq, Eq, Hash)]
pub enum Extend {
    UXTB,
    UXTH,
    UXTW,
    UXTX,
    SXTB,
    SXTH,
    SXTW,
    SXTX,
}

/// The extension with three-bit `option` encoding `n`.
pub open spec fn extend_from(n: u32) -> Extend {
    if n == 0 {
        Extend::UXTB
    } else if n == 1 {
        Extend::UXTH
    } else if n == 2 {
        Extend::UXTW
    } else if n == 3 {
        Extend::UXTX
    } else if n == 4 {
        Extend::SXTB
    } else if n == 5 {
        Extend::SXTH
    } else if n == 6 {
        Extend::SXTW
    } else {
        Extend::SXTX
    }
}

impl Extend {
    /// Decodes a three-bit `option` field.
    pub fn decode(value: u32) -> (r: Self)
        requires
            value < 8,
        ensures
            r == extend_from(value),
    {
        match value {
            0b000 => Extend::UXTB,
            0b001 => Extend::UXTH,
            0b010 => Extend::UXTW,
            0b011 => Extend::UXTX,
            0b100 => Extend::SXTB,
            0b101 => Extend::SXTH,
            0b110 => Extend::SXTW,
            _ => Extend::SXTX,
        }
    }
}

/// The shift or extension applied to the index register of a register-offset access.
#[derive(Debug, Clone, Copy, PartialEq, Eq, Hash)]
pub enum ShiftExtend {
    NoShift,
    UXTW,
    LSL,
    SXTW,
    SXTX,
}

/// Whether `n` is one of the encodings ShiftExtend::decode accepts.
pub open spec fn is_shift_extend(n: u32) -> bool {
    n == 0 || n == 2 || n == 3 || n == 6 || n == 7
}

/// The shift or extension with encoding `n`.
pub open spec fn shift_extend_from(n: u32) -> ShiftExtend {
    if n == 0 {
        ShiftExtend::NoShift
    } else if n == 2 {
        ShiftExtend::UXTW
    } else if n == 3 {
        ShiftExtend::LSL
    } else if n == 6 {
        ShiftExtend::SXTW
    } else {
        ShiftExtend::SXTX
    }
}

impl ShiftExtend {
    /// Decodes the shift or extension of a register-offset access.
    pub fn decode(value: u32) -> (r: Self)
        requires
            is_shift_extend(value),
        ensures
            r == shift_extend_from(value),
    {
        match value {
            0b000 => ShiftExtend::NoShift,
            0b010 => ShiftExtend::UXTW,
            0b011 => ShiftExtend::LSL,
            0b110 => ShiftExtend::SXTW,
            _ => ShiftExtend::SXTX,
        }
    }
}

/// A shift applied to a register operand.
#[derive(Debug, Clone, Copy, PartialEq, Eq, Hash)]
pub enum Shift {
    LSL,
    LSR,
    ASR,
    ROR,
}

/// The shift with two-bit encoding `n`.
pub open spec fn shift_from(n: u32) -> Shift {
    if n == 0 {
        Shift::LSL
    } else if n == 1 {
        Shift::LSR
    } else if n == 2 {
        Shift::ASR
    } else {
        Shift::ROR
    }
}

impl Shift {
    /// Decodes a two-bit shift type; the rotation is only valid where `allow_ror` holds.
    fn decode(value: u32, allow_ror: bool) -> (r: Self)
        requires
            value < 4,
            value == 3 ==> allow_ror,
        ensures
            r == shift_from(value),
    {
        match value {
            0b00 => Shift::LSL,
            0b01 => Shift::LSR,
            0b10 => Shift::ASR,
            _ => Shift::ROR,
        }
    }
}

/// A condition on the NZCV flags.
#[derive(Debug, Clone, Copy, PartialEq, Eq, Hash)]
pub enum Condition {
    EQ,
    NE,
    CS,
    CC,
    MI,
    PL,
    VS,
    VC,
    HI,
    LS,
    GE,
    LT,
    GT,
    LE,
    AL,
    NV,
}

/// The condition with four-bit encoding `n`.
pub open spec fn condition_from(n: u32) -> Condition {
    match n {
        0 => Condition::EQ,
        1 => Condition::NE,
        2 => Condition::CS,
        3 => Condition::CC,
        4 => Condition::MI,
        5 => Condition::PL,
        6 => Condition::VS,
        7 => Condition::VC,
        8 => Condition::HI,
        9 => Condition::LS,
        10 => Condition::GE,
        11 => Condition::LT,
        12 => Condition::GT,
        13 => Condition::LE,
        14 => Condition::AL,
        _ => Condition::NV,
    }
}

impl Condition {
    /// Decodes a four-bit condition.
    fn decode(value: u32) -> (r: Self)
        requires
            value < 16,
        ensures
            r == condition_from(value),
    {
        match value {
            0b0000 => Condition::EQ,
            0b0001 => Condition::NE,
            0b0010 => Condition::CS,
            0b0011 => Condition::CC,
            0b0100 => Condition::MI,
            0b0101 => Condition::PL,
            0b0110 => Condition::VS,
            0b0111 => Condition::VC,
            0b1000 => Condition::HI,
            0b1001 => Condition::LS,
            0b1010 => Condition::GE,
            0b1011 => Condition::LT,
            0b1100 => Condition::GT,
            0b1101 => Condition::LE,
            0b1110 => Condition::AL,
            _ => Condition::NV,
        }
    }
}

/// A decoded instruction of the subset this decoder recognises.
#[allow(inconsistent_fields)]
#[derive(Debug, Clone, Copy, PartialEq, Eq, Hash)]
pub enum Instruction {
    AddImmediate { destination: Register, operand: u64, source: Register, variant: SizeVariant },
    BitwiseOrShiftedRegister {
        destination: Register,
        operand1: Register,
        operand2: Register,
        shift_amount: u32,
        shift_type: Shift,
        variant: SizeVariant,
    },
    Branch { target: i64 },
    BranchConditionally { target: i64, condition: Condition },
    BranchWithLink { target: i64 },
    FormPCRelativeAddress { destination: Register, value: i64 },
    FormPCRelativeAddressToPage { destination: Register, value: i64 },
    LoadRegisterImmediate { address: Address, destination: Register, variant: SizeVariant },
    MoveWideWithZero { destination: Register, value: u64, variant: SizeVariant },
    Nop,
    Return { target: Register },
    StoreRegisterImmediate { address: Address, value: Register, variant: SizeVariant },
    StoreRegisterHalfwordImmediate { address: Address, value: Register },
    StorePairOfRegisters {
        address: Address,
        value1: Register,
        value2: Register,
        variant: SizeVariant,
    },
    StoreRegisterRegister {
        base_address: Register,
        offset: Register,
        extend: ShiftExtend,
        extend_amount: u32,
        value: Register,
        variant: SizeVariant,
    },
    SubImmediate { destination: Register, operand: u64, source: Register, variant: SizeVariant },
    SubShiftedRegister {
        destination: Register,
        operand2: Register,
        shift_amount: u32,
        shift_type: Shift,
        operand1: Register,
        variant: SizeVariant,
    },
    SubsImmediate { destination: Register, operand: u64, source: Register, variant: SizeVariant },
    SupervisorCall { argument: u16 },
    TestBitAndBranchIfNonzero { bit: u32, target: i64, value: Register, variant: SizeVariant },
    TestBitAndBranchIfZero { bit: u32, target: i64, value: Register, variant: SizeVariant },
    Unknown,
}

/// Whether `v` agrees with `e` on the bits selected by `m`.
pub open spec fn masked(v: u32, m: u32, e: u32) -> bool {
    (v & m) == e
}

/// The unsigned 12-bit offset of a word or doubleword access, scaled by its size.
pub open spec fn scaled_offset(v: u32) -> i32 {
    (field(v, 10, 12) * (if bit(v, 31) {
        8nat
    } else {
        4nat
    })) as i32
}

/// The signed 7-bit offset of a register pair access, scaled by the register size.
pub open spec fn pair_offset(v: u32) -> i32 {
    (simm(v, 15, 7) * (if bit(v, 31) {
        8int
    } else {
        4int
    })) as i32
}

/// The 12-bit immediate of an add or subtract, shifted left by 12 when bit 22 is set.
pub open spec fn arithmetic_immediate(v: u32) -> u64 {
    (field(v, 10, 12) * (if bit(v, 22) {
        4096nat
    } else {
        1nat
    })) as u64
}

/// The 21-bit offset `immhi:immlo` of ADR and ADRP, sign extended.
pub open spec fn pc_relative_offset(v: u32) -> int {
    sign_extended((field(v, 5, 19) * 4 + field(v, 29, 2)) as u32, 21)
}

/// The bit number tested by TBZ and TBNZ: `b5:b40`.
pub open spec fn tested_bit(v: u32) -> u32 {
    (field(v, 31, 1) * 32 + field(v, 19, 5)) as u32
}

/// The value written by MOVZ: `imm16` shifted left by `hw * 16`.
pub open spec fn movz_value(v: u32) -> u64 {
    (field(v, 5, 16) * pow2(field(v, 21, 2) * 16)) as u64
}

/// The instruction encoded by `v` among the STR and LDR immediate forms, tried in order.
pub open spec fn spec_stage_immediate_loads_stores(v: u32) -> Option<Instruction> {
    if masked(v, 0b1011_1111_1110_0000_0000_1100_0000_0000, 0b1011_1000_0000_0000_0000_0100_0000_0000) {
        Some(
            Instruction::StoreRegisterImmediate {
                address: Address {
                    base: reg(v, 5, false),
                    mode: AddressingMode::PostIndexWithWriteback { offset: simm(v, 12, 9) as i32 },
                },
                value: reg(v, 0, false),
                variant: variant_of(v),
            },
        )
    } else if masked(v, 0b1011_1111_1110_0000_0000_1100_0000_0000, 0b1011_1000_0000_0000_0000_1100_0000_0000) {
        Some(
            Instruction::StoreRegisterImmediate {
                address: Address {
                    base: reg(v, 5, false),
                    mode: AddressingMode::PreIndexWithWriteback { offset: simm(v, 12, 9) as i32 },
                },
                value: reg(v, 0, true),
                variant: variant_of(v),
            },
        )
    } else if masked(v, 0b1011_1111_1100_0000_0000_0000_0000_0000, 0b1011_1001_0000_0000_0000_0000_0000_0000) {
        Some(
            Instruction::StoreRegisterImmediate {
                address: Address {
                    base: reg(v, 5, false),
                    mode: AddressingMode::PreIndex { offset: scaled_offset(v) },
                },
                value: reg(v, 0, true),
                variant: variant_of(v),
            },
        )
    } else if masked(v, 0b1011_1111_1110_0000_0000_1100_0000_0000, 0b1011_1000_0100_0000_0000_0100_0000_0000) {
        Some(
            Instruction::LoadRegisterImmediate {
                address: Address {
                    base: reg(v, 5, false),
                    mode: AddressingMode::PostIndexWithWriteback { offset: simm(v, 12, 9) as i32 },
                },
                destination: reg(v, 0, false),
                variant: variant_of(v),
            },
        )
    } else if masked(v, 0b1011_1111_1110_0000_0000_1100_0000_0000, 0b1011_1000_0100_0000_0000_1100_0000_0000) {
        Some(
            Instruction::LoadRegisterImmediate {
                address: Address {
                    base: reg(v, 5, false),
                    mode: AddressingMode::PreIndexWithWriteback { offset: simm(v, 12, 9) as i32 },
                },
                destination: reg(v, 0, false),
                variant: variant_of(v),
            },
        )
    } else if masked(v, 0b1011_1111_1100_0000_0000_0000_0000_0000, 0b1011_1001_0100_0000_0000_0000_0000_0000) {
        Some(
            Instruction::LoadRegisterImmediate {
                address: Address {
                    base: reg(v, 5, false),
                    mode: AddressingMode::PreIndex { offset: scaled_offset(v) },
                },
                destination: reg(v, 0, false),
                variant: variant_of(v),
            },
        )
    } else {
        None
    }
}

/// The instruction encoded by `v` among STR (register), STRH (immediate) and STP, tried in order.
pub open spec fn spec_stage_other_stores(v: u32) -> Option<Instruction> {
    if masked(v, 0b1011_1111_1110_0000_0000_1100_0000_0000, 0b1011_1000_0010_0000_0000_1000_0000_0000) {
        Some(
            Instruction::StoreRegisterRegister {
                base_address: reg(v, 5, false),
                offset: reg(v, 16, true),
                extend: shift_extend_from(field(v, 22, 2) as u32),
                extend_amount: if bit(v, 11) {
                    if bit(v, 31) {
                        3u32
                    } else {
                        2u32
                    }
                } else {
                    0u32
                },
                value: reg(v, 0, true),
                variant: variant_of(v),
            },
        )
    } else if masked(v, 0b1111_1111_1110_0000_0000_1100_0000_0000, 0b0111_1000_0000_0000_0000_0100_0000_0000) {
        Some(
            Instruction::StoreRegisterHalfwordImmediate {
                address: Address {
                    base: reg(v, 5, false),
                    mode: AddressingMode::PostIndexWithWriteback { offset: simm(v, 12, 9) as i32 },
                },
                value: reg(v, 0, true),
            },
        )
    } else if masked(v, 0b1111_1111_1110_0000_0000_1100_0000_0000, 0b0111_1000_0000_0000_0000_1100_0000_0000) {
        Some(
            Instruction::StoreRegisterHalfwordImmediate {
                address: Address {
                    base: reg(v, 5, false),
                    mode: AddressingMode::PreIndexWithWriteback { offset: simm(v, 12, 9) as i32 },
                },
                value: reg(v, 0, true),
            },
        )
    } else if masked(v, 0b0111_1111_1100_0000_0000_0000_0000_0000, 0b0111_1001_0000_0000_0000_0000_0000_0000) {
        Some(
            Instruction::StoreRegisterHalfwordImmediate {
                address: Address {
                    base: reg(v, 5, false),
                    mode: AddressingMode::PreIndex { offset: (field(v, 10, 12) * 2) as i32 },
                },
                value: reg(v, 0, true),
            },
        )
    } else if masked(v, 0b0111_1111_1100_0000_0000_0000_0000_0000, 0b0010_1000_1000_0000_0000_0000_0000_0000) {
        Some(
            Instruction::StorePairOfRegisters {
                address: Address {
                    base: reg(v, 5, false),
                    mode: AddressingMode::PostIndexWithWriteback { offset: pair_offset(v) },
                },
                value1: reg(v, 0, true),
                value2: reg(v, 10, true),
                variant: variant_of(v),
            },
        )
    } else if masked(v, 0b0111_1111_1100_0000_0000_0000_0000_0000, 0b0010_1001_1000_0000_0000_0000_0000_0000) {
        Some(
            Instruction::StorePairOfRegisters {
                address: Address {
                    base: reg(v, 5, false),
                    mode: AddressingMode::PreIndexWithWriteback { offset: pair_offset(v) },
                },
                value1: reg(v, 0, true),
                value2: reg(v, 10, true),
                variant: variant_of(v),
            },
        )
    } else if masked(v, 0b0111_1111_1100_0000_0000_0000_0000_0000, 0b0010_1001_0000_0000_0000_0000_0000_0000) {
        Some(
            Instruction::StorePairOfRegisters {
                address: Address {
                    base: reg(v, 5, false),
                    mode: AddressingMode::PreIndex { offset: pair_offset(v) },
                },
                value1: reg(v, 0, true),
                value2: reg(v, 10, true),
                variant: variant_of(v),
            },
        )
    } else {
        None
    }
}

/// The instruction encoded by `v` among ADD, SUB and SUBS (immediate), SUB and ORR (shifted register), tried in order.
pub open spec fn spec_stage_arithmetic(v: u32) -> Option<Instruction> {
    if masked(v, 0b0111_1111_1000_0000_0000_0000_0000_0000, 0b0001_0001_0000_0000_0000_0000_0000_0000) {
        Some(
            Instruction::AddImmediate {
                destination: reg(v, 0, false),
                operand: arithmetic_immediate(v),
                source: reg(v, 5, false),
                variant: variant_of(v),
            },
        )
    } else if masked(v, 0b0111_1111_1000_0000_0000_0000_0000_0000, 0b0101_0001_0000_0000_0000_0000_0000_0000) {
        Some(
            Instruction::SubImmediate {
                destination: reg(v, 0, false),
                operand: arithmetic_immediate(v),
                source: reg(v, 5, false),
                variant: variant_of(v),
            },
        )
    } else if masked(v, 0b0111_1111_1000_0000_0000_0000_0000_0000, 0b0111_0001_0000_0000_0000_0000_0000_0000) {
        Some(
            Instruction::SubsImmediate {
                destination: reg(v, 0, true),
                operand: arithmetic_immediate(v),
                source: reg(v, 5, false),
                variant: variant_of(v),
            },
        )
    } else if masked(v, 0b0111_1111_0010_0000_0000_0000_0000_0000, 0b0100_1011_0000_0000_0000_0000_0000_0000) {
        Some(
            Instruction::SubShiftedRegister {
                destination: reg(v, 0, true),
                operand1: reg(v, 5, true),
                operand2: reg(v, 16, true),
                shift_amount: field(v, 10, 6) as u32,
                shift_type: shift_from(field(v, 22, 2) as u32),
                variant: variant_of(v),
            },
        )
    } else if masked(v, 0b0111_1111_0010_0000_0000_0000_0000_0000, 0b0010_1010_0000_0000_0000_0000_0000_0000) {
        Some(
            Instruction::BitwiseOrShiftedRegister {
                destination: reg(v, 0, true),
                operand1: reg(v, 5, true),
                operand2: reg(v, 16, true),
                shift_amount: field(v, 10, 6) as u32,
                shift_type: shift_from(field(v, 22, 2) as u32),
                variant: variant_of(v),
            },
        )
    } else {
        None
    }
}

/// The instruction encoded by `v` among B, B.cond, TBNZ, TBZ, BL and RET, tried in order.
pub open spec fn spec_stage_branches(v: u32) -> Option<Instruction> {
    if masked(v, 0b1111_1100_0000_0000_0000_0000_0000_0000, 0b0001_0100_0000_0000_0000_0000_0000_0000) {
        Some(
            Instruction::Branch { target: simm(v, 0, 26) as i64 },
        )
    } else if masked(v, 0b1111_1111_0000_0000_0000_0000_0001_0000, 0b0101_0100_0000_0000_0000_0000_0000_0000) {
        Some(
            Instruction::BranchConditionally {
                target: simm(v, 5, 19) as i64,
                condition: condition_from(field(v, 0, 4) as u32),
            },
        )
    } else if masked(v, 0b0111_1111_0000_0000_0000_0000_0000_0000, 0b0011_0111_0000_0000_0000_0000_0000_0000) {
        Some(
            Instruction::TestBitAndBranchIfNonzero {
                bit: tested_bit(v),
                target: simm(v, 5, 14) as i64,
                value: reg(v, 0, true),
                variant: variant_of(v),
            },
        )
    } else if masked(v, 0b0111_1111_0000_0000_0000_0000_0000_0000, 0b0011_0110_0000_0000_0000_0000_0000_0000) {
        Some(
            Instruction::TestBitAndBranchIfZero {
                bit: tested_bit(v),
                target: simm(v, 5, 14) as i64,
                value: reg(v, 0, true),
                variant: variant_of(v),
            },
        )
    } else if masked(v, 0b1111_1100_0000_0000_0000_0000_0000_0000, 0b1001_0100_0000_0000_0000_0000_0000_0000) {
        Some(
            Instruction::BranchWithLink { target: simm(v, 0, 26) as i64 },
        )
    } else if masked(v, 0b1111_1111_1111_1111_1111_1100_0001_1111, 0b1101_0110_0101_1111_0000_0000_0000_0000) {
        Some(
            Instruction::Return { target: reg(v, 5, true) },
        )
    } else {
        None
    }
}

/// The instruction encoded by `v` among NOP, SVC, MOVZ, ADR and ADRP, tried in order.
pub open spec fn spec_stage_misc(v: u32) -> Option<Instruction> {
    if v == 0b1101_0101_0000_0011_0010_0000_0001_1111 {
        Some(
            Instruction::Nop,
        )
    } else if masked(v, 0b1111_1111_1110_0000_0000_0000_0001_1111, 0b1101_0100_0000_0000_0000_0000_0000_0001) {
        Some(
            Instruction::SupervisorCall { argument: field(v, 5, 16) as u16 },
        )
    } else if masked(v, 0b0111_1111_1000_0000_0000_0000_0000_0000, 0b0101_0010_1000_0000_0000_0000_0000_0000) {
        Some(
            Instruction::MoveWideWithZero {
                destination: reg(v, 0, true),
                value: movz_value(v),
                variant: variant_of(v),
            },
        )
    } else if masked(v, 0b1001_1111_0000_0000_0000_0000_0000_0000, 0b0001_0000_0000_0000_0000_0000_0000_0000) {
        Some(
            Instruction::FormPCRelativeAddress {
                destination: reg(v, 0, true),
                value: pc_relative_offset(v) as i64,
            },
        )
    } else if masked(v, 0b1001_1111_0000_0000_0000_0000_0000_0000, 0b1001_0000_0000_0000_0000_0000_0000_0000) {
        Some(
            Instruction::FormPCRelativeAddressToPage {
                destination: reg(v, 0, true),
                value: (pc_relative_offset(v) * 4096) as i64,
            },
        )
    } else {
        None
    }
}

/// The instruction encoded by `v`; the encodings are tried in a fixed order and the
/// first match wins, and a word that matches none is `Unknown`.
pub open spec fn spec_decode(v: u32) -> Instruction {
    match spec_stage_immediate_loads_stores(v) {
        Some(i) => i,
        None => match spec_stage_other_stores(v) {
            Some(i) => i,
            None => match spec_stage_arithmetic(v) {
                Some(i) => i,
                None => match spec_stage_branches(v) {
                    Some(i) => i,
                    None => match spec_stage_misc(v) {
                        Some(i) => i,
                        None => Instruction::Unknown,
                    },
                },
            },
        },
    }
}

/// A shifted-register SUB or ORR must not ask for a rotation, and a 32-bit ORR must not
/// shift by 32 or more; the immediate forms, tried first, take precedence.
pub open spec fn arithmetic_decodable(v: u32) -> bool {
    let immediate = masked(v, 0b0111_1111_1000_0000_0000_0000_0000_0000, 0b0001_0001_0000_0000_0000_0000_0000_0000)
        || masked(v, 0b0111_1111_1000_0000_0000_0000_0000_0000, 0b0101_0001_0000_0000_0000_0000_0000_0000)
        || masked(v, 0b0111_1111_1000_0000_0000_0000_0000_0000, 0b0111_0001_0000_0000_0000_0000_0000_0000);
    let sub_shifted = masked(v, 0b0111_1111_0010_0000_0000_0000_0000_0000, 0b0100_1011_0000_0000_0000_0000_0000_0000);
    let orr_shifted = masked(v, 0b0111_1111_0010_0000_0000_0000_0000_0000, 0b0010_1010_0000_0000_0000_0000_0000_0000);
    &&& (!immediate && sub_shifted) ==> field(v, 22, 2) != 3
    &&& (!immediate && !sub_shifted && orr_shifted) ==> !(!bit(v, 31) && bit(v, 15)) && field(v, 22, 2) != 3
}

/// Whether every whole little-endian word of `data` is one the decoder accepts.
pub fn words_decodable(data: &[u8]) -> (r: bool)
    ensures
        r == all_decodable(data@),
{
    let count = data.len() / 4;
    let mut k: usize = 0;
    while k < count
        invariant
            count == data.len() / 4,
            k <= count,
            forall|j: int| 0 <= j < k ==> #[trigger] decodable(le_word(data@, 4 * j)),
        decreases count - k,
    {
        assert(4 * k + 4 <= data.len()) by (nonlinear_arith)
            requires
                k < count,
                count == data.len() / 4,
        ;
        if !Instruction::is_decodable(read_le_word(data, 4 * k)) {
            return false;
        }
        k = k + 1;
    }
    true
}

/// Whether every whole little-endian word of `data` is one the decoder accepts.
pub open spec fn all_decodable(data: Seq<u8>) -> bool {
    forall|k: int| 0 <= k < data.len() / 4 ==> #[trigger] decodable(le_word(data, 4 * k))
}

/// Whether `v` is a store register (register offset) word.
pub open spec fn is_register_store(v: u32) -> bool {
    masked(v, 0b1011_1111_1110_0000_0000_1100_0000_0000, 0b1011_1000_0010_0000_0000_1000_0000_0000)
}

/// The words the decoder accepts: a store register (register offset) word, where no
/// immediate load or store matched first, must have bit 14 set (its `option` is an
/// extension of a 32-bit or 64-bit register); and where no load or store encoding
/// matched, `arithmetic_decodable` must hold.
pub open spec fn decodable(v: u32) -> bool {
    &&& (spec_stage_immediate_loads_stores(v) is None && is_register_store(v)) ==> bit(v, 14)
    &&& (spec_stage_immediate_loads_stores(v) is None && spec_stage_other_stores(v) is None)
        ==> arithmetic_decodable(v)
}

/// The `option` bits 22 and 23 of a register-offset store word are clear.
proof fn lemma_register_store_option(v: u32)
    requires
        masked(v, 0b1011_1111_1110_0000_0000_1100_0000_0000, 0b1011_1000_0010_0000_0000_1000_0000_0000),
    ensures
        field(v, 22, 2) == 0,
{
    vstd::bits::lemma_u32_shr_is_div(v, 22);
    vstd::bits::lemma_u32_low_bits_mask_is_mod(v >> 22u32, 2);
    lemma2_to64();
    assert(vstd::bits::low_bits_mask(2) == 3) by {
        vstd::bits::lemma_low_bits_mask_values();
    }
    assert((v >> 22u32) & 3u32 == 0) by (bit_vector)
        requires
            (v & 0b1011_1111_1110_0000_0000_1100_0000_0000) == 0b1011_1000_0010_0000_0000_1000_0000_0000,
    ;
}

proof fn lemma_scaled_offset(x: u32)
    by (bit_vector)
    requires
        x < 4096,
    ensures
        x << 3u32 == x * 8,
        x << 2u32 == x * 4,
        x << 1u32 == x * 2,
{
}

proof fn lemma_arithmetic_immediate(x: u64)
    by (bit_vector)
    requires
        x < 4096,
    ensures
        x << 12u64 == x * 4096,
        x << 0u64 == x,
{
}

proof fn lemma_pc_relative(hi: u32, lo: u32)
    by (bit_vector)
    requires
        hi < 0x80000,
        lo < 4,
    ensures
        (hi << 2u32) | lo == hi * 4 + lo,
{
}

proof fn lemma_movz_shift(hw: u64)
    by (bit_vector)
    requires
        hw < 4,
    ensures
        hw << 4u64 == hw * 16,
{
}

proof fn lemma_full_mask(v: u32)
    by (bit_vector)
    ensures
        v & 0b1111_1111_1111_1111_1111_1111_1111_1111 == v,
{
}

proof fn lemma_pow2_halfword_positions(shift: u64)
    requires
        shift == 0 || shift == 16 || shift == 32 || shift == 48,
    ensures
        pow2(shift as nat) <= 0x1_0000_0000_0000,
{
    lemma2_to64();
    vstd::arithmetic::power2::lemma2_to64_rest();
}

impl Instruction {
    /// Decodes `bytes` among STR and LDR (immediate).
    #[verifier::rlimit(60)]
    fn stage_immediate_loads_stores(bytes: &InstructionBytes) -> (r: Option<Self>)
        ensures
            r == spec_stage_immediate_loads_stores(bytes.0),
    {
        let value = bytes.0;
        proof {
            lemma2_to64();
            lemma_full_mask(value);
        }
        // STR (immediate)
        if equal_masked(
            value,
            0b1011_1111_1110_0000_0000_1100_0000_0000,
            0b1011_1000_0000_0000_0000_0100_0000_0000,
        ) {
            return Some(Instruction::StoreRegisterImmediate {
                address: Address {
                    base: bytes.register(5, false),
                    mode: AddressingMode::PostIndexWithWriteback {
                        offset: bytes.immediate(12, 9, true),
                    },
                },
                value: bytes.register(0, false),
                variant: bytes.variant(),
            });
        }
        if equal_masked(
            value,
            0b1011_1111_1110_0000_0000_1100_0000_0000,
            0b1011_1000_0000_0000_0000_1100_0000_0000,
        ) {
            return Some(Instruction::StoreRegisterImmediate {
                address: Address {
                    base: bytes.register(5, false),
                    mode: AddressingMode::PreIndexWithWriteback {
                        offset: bytes.immediate(12, 9, true),
                    },
                },
                value: bytes.register(0, true),
                variant: bytes.variant(),
            });
        }
        if equal_masked(
            value,
            0b1011_1111_1100_0000_0000_0000_0000_0000,
            0b1011_1001_0000_0000_0000_0000_0000_0000,
        ) {
            let imm12 = bytes.immediate_unsigned(10, 12);
            let scale: u32 = if bytes.bool(31) { 3 } else { 2 };
            proof {
                lemma_scaled_offset(imm12);
            }
            return Some(Instruction::StoreRegisterImmediate {
                address: Address {
                    base: bytes.register(5, false),
                    mode: AddressingMode::PreIndex { offset: (imm12 << scale) as i32 },
                },
                value: bytes.register(0, true),
                variant: bytes.variant(),
            });
        }
        // LDR (immediate): the STR encodings with bit 22 set

        if equal_masked(
            value,
            0b1011_1111_1110_0000_0000_1100_0000_0000,
            0b1011_1000_0100_0000_0000_0100_0000_0000,
        ) {
            return Some(Instruction::LoadRegisterImmediate {
                address: Address {
                    base: bytes.register(5, false),
                    mode: AddressingMode::PostIndexWithWriteback {
                        offset: bytes.immediate(12, 9, true),
                    },
                },
                destination: bytes.register(0, false),
                variant: bytes.variant(),
            });
        }
        if equal_masked(
            value,
            0b1011_1111_1110_0000_0000_1100_0000_0000,
            0b1011_1000_0100_0000_0000_1100_0000_0000,
        ) {
            return Some(Instruction::LoadRegisterImmediate {
                address: Address {
                    base: bytes.register(5, false),
                    mode: AddressingMode::PreIndexWithWriteback {
                        offset: bytes.immediate(12, 9, true),
                    },
                },
                destination: bytes.register(0, false),
                variant: bytes.variant(),
            });
        }
        if equal_masked(
            value,
            0b1011_1111_1100_0000_0000_0000_0000_0000,
            0b1011_1001_0100_0000_0000_0000_0000_0000,
        ) {
            let imm12 = bytes.immediate_unsigned(10, 12);
            let scale: u32 = if bytes.bool(31) { 3 } else { 2 };
            proof {
                lemma_scaled_offset(imm12);
            }
            return Some(Instruction::LoadRegisterImmediate {
                address: Address {
                    base: bytes.register(5, false),
                    mode: AddressingMode::PreIndex { offset: (imm12 << scale) as i32 },
                },
                destination: bytes.register(0, false),
                variant: bytes.variant(),
            });
        }
        None
    }

    /// Decodes `bytes` among STR (register), STRH (immediate) and STP.
    #[verifier::rlimit(60)]
    fn stage_other_stores(bytes: &InstructionBytes) -> (r: Option<Self>)
        ensures
            r == spec_stage_other_stores(bytes.0),
    {
        let value = bytes.0;
        proof {
            lemma2_to64();
            lemma_full_mask(value);
        }
        // STR (register)

        if equal_masked(
            value,
            0b1011_1111_1110_0000_0000_1100_0000_0000,
            0b1011_1000_0010_0000_0000_1000_0000_0000,
        ) {
            let extend_field = get_bits(value, 22, 2);
            proof {
                lemma_register_store_option(value);
            }
            return Some(Instruction::StoreRegisterRegister {
                base_address: bytes.register(5, false),
                offset: bytes.register(16, true),
                extend: ShiftExtend::decode(extend_field),
                extend_amount: if bytes.bool(11) {
                    if bytes.bool(31) {
                        3
                    } else {
                        2
                    }
                } else {
                    0
                },
                value: bytes.register(0, true),
                variant: bytes.variant(),
            });
        }
        // STRH (immediate)

        if equal_masked(
            value,
            0b1111_1111_1110_0000_0000_1100_0000_0000,
            0b0111_1000_0000_0000_0000_0100_0000_0000,
        ) {
            return Some(Instruction::StoreRegisterHalfwordImmediate {
                address: Address {
                    base: bytes.register(5, false),
                    mode: AddressingMode::PostIndexWithWriteback {
                        offset: bytes.immediate(12, 9, true),
                    },
                },
                value: bytes.register(0, true),
            });
        }
        if equal_masked(
            value,
            0b1111_1111_1110_0000_0000_1100_0000_0000,
            0b0111_1000_0000_0000_0000_1100_0000_0000,
        ) {
            return Some(Instruction::StoreRegisterHalfwordImmediate {
                address: Address {
                    base: bytes.register(5, false),
                    mode: AddressingMode::PreIndexWithWriteback {
                        offset: bytes.immediate(12, 9, true),
                    },
                },
                value: bytes.register(0, true),
            });
        }
        if equal_masked(
            value,
            0b0111_1111_1100_0000_0000_0000_0000_0000,
            0b0111_1001_0000_0000_0000_0000_0000_0000,
        ) {
            let imm12 = bytes.immediate_unsigned(10, 12);
            proof {
                lemma_scaled_offset(imm12);
            }
            return Some(Instruction::StoreRegisterHalfwordImmediate {
                address: Address {
                    base: bytes.register(5, false),
                    mode: AddressingMode::PreIndex { offset: (imm12 << 1u32) as i32 },
                },
                value: bytes.register(0, true),
            });
        }
        // STP

        if equal_masked(
            value,
            0b0111_1111_1100_0000_0000_0000_0000_0000,
            0b0010_1000_1000_0000_0000_0000_0000_0000,
        ) {
            let scale: i32 = if bytes.bool(31) { 8 } else { 4 };
            return Some(Instruction::StorePairOfRegisters {
                address: Address {
                    base: bytes.register(5, false),
                    mode: AddressingMode::PostIndexWithWriteback {
                        offset: bytes.immediate(15, 7, true) * scale,
                    },
                },
                value1: bytes.register(0, true),
                value2: bytes.register(10, true),
                variant: bytes.variant(),
            });
        }
        if equal_masked(
            value,
            0b0111_1111_1100_0000_0000_0000_0000_0000,
            0b0010_1001_1000_0000_0000_0000_0000_0000,
        ) {
            let scale: i32 = if bytes.bool(31) { 8 } else { 4 };
            return Some(Instruction::StorePairOfRegisters {
                address: Address {
                    base: bytes.register(5, false),
                    mode: AddressingMode::PreIndexWithWriteback {
                        offset: bytes.immediate(15, 7, true) * scale,
                    },
                },
                value1: bytes.register(0, true),
                value2: bytes.register(10, true),
                variant: bytes.variant(),
            });
        }
        if equal_masked(
            value,
            0b0111_1111_1100_0000_0000_0000_0000_0000,
            0b0010_1001_0000_0000_0000_0000_0000_0000,
        ) {
            let scale: i32 = if bytes.bool(31) { 8 } else { 4 };
            return Some(Instruction::StorePairOfRegisters {
                address: Address {
                    base: bytes.register(5, false),
                    mode: AddressingMode::PreIndex {
                        offset: bytes.immediate(15, 7, true) * scale,
                    },
                },
                value1: bytes.register(0, true),
                value2: bytes.register(10, true),
                variant: bytes.variant(),
            });
        }
        None
    }

    /// Decodes `bytes` among ADD, SUB, SUBS (immediate), SUB and ORR (shifted register).
    #[verifier::rlimit(60)]
    fn stage_arithmetic(bytes: &InstructionBytes) -> (r: Option<Self>)
        requires
            arithmetic_decodable(bytes.0),
        ensures
            r == spec_stage_arithmetic(bytes.0),
    {
        let value = bytes.0;
        proof {
            lemma2_to64();
            lemma_full_mask(value);
        }
        // ADD, SUB and SUBS (immediate)

        if equal_masked(
            value,
            0b0111_1111_1000_0000_0000_0000_0000_0000,
            0b0001_0001_0000_0000_0000_0000_0000_0000,
        ) {
            let imm12 = bytes.immediate_unsigned(10, 12) as u64;
            let shift: u64 = if bytes.bool(22) { 12 } else { 0 };
            proof {
                lemma_arithmetic_immediate(imm12);
            }
            return Some(Instruction::AddImmediate {
                destination: bytes.register(0, false),
                operand: imm12 << shift,
                source: bytes.register(5, false),
                variant: bytes.variant(),
            });
        }
        if equal_masked(
            value,
            0b0111_1111_1000_0000_0000_0000_0000_0000,
            0b0101_0001_0000_0000_0000_0000_0000_0000,
        ) {
            let imm12 = bytes.immediate_unsigned(10, 12) as u64;
            let shift: u64 = if bytes.bool(22) { 12 } else { 0 };
            proof {
                lemma_arithmetic_immediate(imm12);
            }
            return Some(Instruction::SubImmediate {
                destination: bytes.register(0, false),
                operand: imm12 << shift,
                source: bytes.register(5, false),
                variant: bytes.variant(),
            });
        }
        if equal_masked(
            value,
            0b0111_1111_1000_0000_0000_0000_0000_0000,
            0b0111_0001_0000_0000_0000_0000_0000_0000,
        ) {
            let imm12 = bytes.immediate_unsigned(10, 12) as u64;
            let shift: u64 = if bytes.bool(22) { 12 } else { 0 };
            proof {
                lemma_arithmetic_immediate(imm12);
            }
            return Some(Instruction::SubsImmediate {
                destination: bytes.register(0, true),
                operand: imm12 << shift,
                source: bytes.register(5, false),
                variant: bytes.variant(),
            });
        }
        // SUB (shifted register)

        if equal_masked(
            value,
            0b0111_1111_0010_0000_0000_0000_0000_0000,
            0b0100_1011_0000_0000_0000_0000_0000_0000,
        ) {
            let shift_type = get_bits(value, 22, 2);
            proof {
                vstd::arithmetic::power2::lemma_pow2_pos(2);
            }
            return Some(Instruction::SubShiftedRegister {
                destination: bytes.register(0, true),
                operand1: bytes.register(5, true),
                operand2: bytes.register(16, true),
                shift_amount: get_bits(value, 10, 6),
                shift_type: Shift::decode(shift_type, false),
                variant: bytes.variant(),
            });
        }
        // ORR (shifted register)

        if equal_masked(
            value,
            0b0111_1111_0010_0000_0000_0000_0000_0000,
            0b0010_1010_0000_0000_0000_0000_0000_0000,
        ) {
            let shift_type = get_bits(value, 22, 2);
            return Some(Instruction::BitwiseOrShiftedRegister {
                destination: bytes.register(0, true),
                operand1: bytes.register(5, true),
                operand2: bytes.register(16, true),
                shift_amount: get_bits(value, 10, 6),
                shift_type: Shift::decode(shift_type, false),
                variant: bytes.variant(),
            });
        }
        None
    }

    /// Decodes `bytes` among B, B.cond, TBNZ, TBZ, BL and RET.
    #[verifier::rlimit(60)]
    fn stage_branches(bytes: &InstructionBytes) -> (r: Option<Self>)
        ensures
            r == spec_stage_branches(bytes.0),
    {
        let value = bytes.0;
        proof {
            lemma2_to64();
            lemma_full_mask(value);
        }
        // B

        if equal_masked(
            value,
            0b1111_1100_0000_0000_0000_0000_0000_0000,
            0b0001_0100_0000_0000_0000_0000_0000_0000,
        ) {
            return Some(Instruction::Branch { target: bytes.immediate(0, 26, true) as i64 });
        }
        // B.cond

        if equal_masked(
            value,
            0b1111_1111_0000_0000_0000_0000_0001_0000,
            0b0101_0100_0000_0000_0000_0000_0000_0000,
        ) {
            let cond = get_bits(value, 0, 4);
            return Some(Instruction::BranchConditionally {
                target: bytes.immediate(5, 19, true) as i64,
                condition: Condition::decode(cond),
            });
        }
        // TBNZ and TBZ

        if equal_masked(
            value,
            0b0111_1111_0000_0000_0000_0000_0000_0000,
            0b0011_0111_0000_0000_0000_0000_0000_0000,
        ) {
            return Some(Instruction::TestBitAndBranchIfNonzero {
                bit: get_bits(value, 31, 1) * 32 + get_bits(value, 19, 5),
                target: bytes.immediate(5, 14, true) as i64,
                value: bytes.register(0, true),
                variant: bytes.variant(),
            });
        }
        if equal_masked(
            value,
            0b0111_1111_0000_0000_0000_0000_0000_0000,
            0b0011_0110_0000_0000_0000_0000_0000_0000,
        ) {
            return Some(Instruction::TestBitAndBranchIfZero {
                bit: get_bits(value, 31, 1) * 32 + get_bits(value, 19, 5),
                target: bytes.immediate(5, 14, true) as i64,
                value: bytes.register(0, true),
                variant: bytes.variant(),
            });
        }
        // BL

        if equal_masked(
            value,
            0b1111_1100_0000_0000_0000_0000_0000_0000,
            0b1001_0100_0000_0000_0000_0000_0000_0000,
        ) {
            return Some(Instruction::BranchWithLink { target: bytes.immediate(0, 26, true) as i64 });
        }
        // RET

        if equal_masked(
            value,
            0b1111_1111_1111_1111_1111_1100_0001_1111,
            0b1101_0110_0101_1111_0000_0000_0000_0000,
        ) {
            return Some(Instruction::Return { target: bytes.register(5, true) });
        }
        None
    }

    /// Decodes `bytes` among NOP, SVC, MOVZ, ADR and ADRP.
    #[verifier::rlimit(60)]
    fn stage_misc(bytes: &InstructionBytes) -> (r: Option<Self>)
        ensures
            r == spec_stage_misc(bytes.0),
    {
        let value = bytes.0;
        proof {
            lemma2_to64();
            lemma_full_mask(value);
        }
        // NOP

        if equal_masked(
            value,
            0b1111_1111_1111_1111_1111_1111_1111_1111,
            0b1101_0101_0000_0011_0010_0000_0001_1111,
        ) {
            return Some(Instruction::Nop);
        }
        // SVC

        if equal_masked(
            value,
            0b1111_1111_1110_0000_0000_0000_0001_1111,
            0b1101_0100_0000_0000_0000_0000_0000_0001,
        ) {
            return Some(Instruction::SupervisorCall { argument: get_bits(value, 5, 16) as u16 });
        }
        // MOVZ

        if equal_masked(
            value,
            0b0111_1111_1000_0000_0000_0000_0000_0000,
            0b0101_0010_1000_0000_0000_0000_0000_0000,
        ) {
            let imm16 = get_bits(value, 5, 16) as u64;
            let hw = get_bits(value, 21, 2) as u64;
            proof {
                lemma_movz_shift(hw);
            }
            let shift = hw << 4;
            proof {
                lemma_pow2_halfword_positions(shift);
                assert(imm16 * pow2(shift as nat) <= u64::MAX) by (nonlinear_arith)
                    requires
                        imm16 < 65536,
                        pow2(shift as nat) <= 0x1_0000_0000_0000,
                ;
                lemma_u64_shl_is_mul(imm16, shift);
            }
            return Some(Instruction::MoveWideWithZero {
                destination: bytes.register(0, true),
                value: imm16 << shift,
                variant: bytes.variant(),
            });
        }
        // ADR

        if equal_masked(
            value,
            0b1001_1111_0000_0000_0000_0000_0000_0000,
            0b0001_0000_0000_0000_0000_0000_0000_0000,
        ) {
            let hi = get_bits(value, 5, 19);
            let lo = get_bits(value, 29, 2);
            proof {
                lemma_pc_relative(hi, lo);
            }
            return Some(Instruction::FormPCRelativeAddress {
                destination: bytes.register(0, true),
                value: sign_extend((hi << 2) | lo, 21) as i64,
            });
        }
        // ADRP

        if equal_masked(
            value,
            0b1001_1111_0000_0000_0000_0000_0000_0000,
            0b1001_0000_0000_0000_0000_0000_0000_0000,
        ) {
            let hi = get_bits(value, 5, 19);
            let lo = get_bits(value, 29, 2);
            proof {
                lemma_pc_relative(hi, lo);
            }
            let offset = sign_extend((hi << 2) | lo, 21) as i64;
            proof {
                assert((1i64 << 12i64) == 4096) by (bit_vector);
            }
            return Some(Instruction::FormPCRelativeAddressToPage {
                destination: bytes.register(0, true),
                value: offset * (1i64 << 12),
            });
        }
        None
    }

    /// Whether the decoder accepts `value`.
    pub fn is_decodable(value: u32) -> (r: bool)
        ensures
            r == decodable(value),
    {
        proof {
            lemma2_to64();
        }
        let bytes = InstructionBytes(value);
        if Self::stage_immediate_loads_stores(&bytes).is_some() {
            return true;
        }
        if equal_masked(
            value,
            0b1011_1111_1110_0000_0000_1100_0000_0000,
            0b1011_1000_0010_0000_0000_1000_0000_0000,
        ) {
            return bytes.bool(14);
        }
        if Self::stage_other_stores(&bytes).is_some() {
            return true;
        }
        let immediate = equal_masked(
            value,
            0b0111_1111_1000_0000_0000_0000_0000_0000,
            0b0001_0001_0000_0000_0000_0000_0000_0000,
        ) || equal_masked(
            value,
            0b0111_1111_1000_0000_0000_0000_0000_0000,
            0b0101_0001_0000_0000_0000_0000_0000_0000,
        ) || equal_masked(
            value,
            0b0111_1111_1000_0000_0000_0000_0000_0000,
            0b0111_0001_0000_0000_0000_0000_0000_0000,
        );
        let sub_shifted = equal_masked(
            value,
            0b0111_1111_0010_0000_0000_0000_0000_0000,
            0b0100_1011_0000_0000_0000_0000_0000_0000,
        );
        let orr_shifted = equal_masked(
            value,
            0b0111_1111_0010_0000_0000_0000_0000_0000,
            0b0010_1010_0000_0000_0000_0000_0000_0000,
        );
        let no_rotation = bytes.immediate_unsigned(22, 2) != 3;
        let narrow_wide_shift = !bytes.bool(31) && bytes.bool(15);
        (!(!immediate && sub_shifted) || no_rotation) && (!(!immediate && !sub_shifted
            && orr_shifted) || (!narrow_wide_shift && no_rotation))
    }

    /// Decodes one instruction word: the encodings are tried in a fixed order, and a word
    /// that matches none is `Unknown`.
    pub fn decode(value: u32) -> (r: Self)
        requires
            decodable(value),
        ensures
            r == spec_decode(value),
    {
        let bytes = InstructionBytes(value);
        if let Some(i) = Self::stage_immediate_loads_stores(&bytes) {
            return i;
        }
        if let Some(i) = Self::stage_other_stores(&bytes) {
            return i;
        }
        if let Some(i) = Self::stage_arithmetic(&bytes) {
            return i;
        }
        if let Some(i) = Self::stage_branches(&bytes) {
            return i;
        }
        if let Some(i) = Self::stage_misc(&bytes) {
            return i;
        }
        Self::Unknown
    }

    /// Decodes every whole little-endian instruction word of `data`, in order; a
    /// trailing partial word is ignored.
    pub fn decode_bytes(data: &[u8]) -> (r: Vec<Self>)
        requires
            all_decodable(data@),
        ensures
            r.len() == data.len() / 4,
            forall|k: int|
                0 <= k < r.len() ==> #[trigger] r[k] == spec_decode(le_word(data@, 4 * k)),
    {
        let size = INSTRUCTION_SIZE as usize;
        assert(size == 4);
        let count = data.len() / size;
        let mut result: Vec<Self> = Vec::new();
        let mut instruction_index: usize = 0;
        while instruction_index < count
            invariant
                size == 4,
                count == data.len() / 4,
                all_decodable(data@),
                instruction_index <= count,
                result.len() == instruction_index,
                forall|k: int|
                    0 <= k < instruction_index ==> #[trigger] result[k] == spec_decode(
                        le_word(data@, 4 * k),
                    ),
            decreases count - instruction_index,
        {
            assert(4 * instruction_index + 4 <= data.len()) by (nonlinear_arith)
                requires
                    instruction_index < count,
                    count == data.len() / 4,
            ;
            let offset = size * instruction_index;
            let word = read_le_word(data, offset);
            assert(decodable(le_word(data@, 4 * (instruction_index as int))));
            result.push(Instruction::decode(word));
            instruction_index = instruction_index + 1;
        }
        result
    }
}


/// The `size`-bit field of `v` at `start` is what a shift and a mask give.
proof fn lemma_field_as_bits(v: u32, start: u32, size: u32)
    requires
        start < 32,
        size < 32,
    ensures
        field(v, start, size) == ((v >> start) & (vstd::bits::low_bits_mask(size as nat) as u32)),
{
    vstd::bits::lemma_u32_shr_is_div(v, start);
    vstd::bits::lemma_u32_low_bits_mask_is_mod(v >> start, size as nat);
    vstd::bits::lemma_u32_pow2_no_overflow(size as nat);
    vstd::arithmetic::power2::lemma_pow2_pos(size as nat);
    assert((pow2(size as nat) as u32) as nat == pow2(size as nat));
}

/// Setting bit 22 leaves the fields of an immediate load or store that lie elsewhere.
proof fn lemma_fields_beside_bit22(v: u32)
    ensures
        field(v | 0x40_0000, 0, 5) == field(v, 0, 5),
        field(v | 0x40_0000, 5, 5) == field(v, 5, 5),
        field(v | 0x40_0000, 12, 9) == field(v, 12, 9),
        field(v | 0x40_0000, 10, 12) == field(v, 10, 12),
        field(v | 0x40_0000, 31, 1) == field(v, 31, 1),
{
    let w = v | 0x40_0000;
    lemma2_to64();
    lemma_field_as_bits(v, 0, 5);
    lemma_field_as_bits(w, 0, 5);
    lemma_field_as_bits(v, 5, 5);
    lemma_field_as_bits(w, 5, 5);
    lemma_field_as_bits(v, 12, 9);
    lemma_field_as_bits(w, 12, 9);
    lemma_field_as_bits(v, 10, 12);
    lemma_field_as_bits(w, 10, 12);
    lemma_field_as_bits(v, 31, 1);
    lemma_field_as_bits(w, 31, 1);
    assert(vstd::bits::low_bits_mask(5) == 31) by {
        vstd::bits::lemma_low_bits_mask_values();
    }
    assert(vstd::bits::low_bits_mask(9) == 511) by {
        vstd::bits::lemma_low_bits_mask_values();
    }
    assert(vstd::bits::low_bits_mask(12) == 4095) by {
        vstd::bits::lemma_low_bits_mask_values();
    }
    assert(vstd::bits::low_bits_mask(1) == 1) by {
        vstd::bits::lemma_low_bits_mask_values();
    }
    assert(((w >> 0u32) & 31u32) == ((v >> 0u32) & 31u32)) by (bit_vector)
        requires
            w == v | 0x40_0000u32,
    ;
    assert(((w >> 5u32) & 31u32) == ((v >> 5u32) & 31u32)) by (bit_vector)
        requires
            w == v | 0x40_0000u32,
    ;
    assert(((w >> 12u32) & 511u32) == ((v >> 12u32) & 511u32)) by (bit_vector)
        requires
            w == v | 0x40_0000u32,
    ;
    assert(((w >> 10u32) & 4095u32) == ((v >> 10u32) & 4095u32)) by (bit_vector)
        requires
            w == v | 0x40_0000u32,
    ;
    assert(((w >> 31u32) & 1u32) == ((v >> 31u32) & 1u32)) by (bit_vector)
        requires
            w == v | 0x40_0000u32,
    ;
}

/// A store of a register with an immediate offset and the word with bit 22 set differ
/// only in direction: the latter loads the register in bits 0 to 4 (register 31 being
/// the stack pointer) from the same address, at the same size.
pub proof fn lemma_store_load_pairing(v: u32)
    requires
        masked(v, 0b1011_1111_1110_0000_0000_1100_0000_0000, 0b1011_1000_0000_0000_0000_0100_0000_0000)
            || masked(v, 0b1011_1111_1110_0000_0000_1100_0000_0000, 0b1011_1000_0000_0000_0000_1100_0000_0000)
            || masked(v, 0b1011_1111_1100_0000_0000_0000_0000_0000, 0b1011_1001_0000_0000_0000_0000_0000_0000),
    ensures
        spec_decode(v) matches Instruction::StoreRegisterImmediate { address, variant, .. }
            && spec_decode(v | 0x40_0000) == (Instruction::LoadRegisterImmediate {
            address,
            destination: reg(v, 0, false),
            variant,
        }),
{
    let w = v | 0x40_0000;
    lemma_fields_beside_bit22(v);
    assert(masked(v, 0b1011_1111_1110_0000_0000_1100_0000_0000, 0b1011_1000_0000_0000_0000_0100_0000_0000)
        ==> masked(w, 0b1011_1111_1110_0000_0000_1100_0000_0000, 0b1011_1000_0100_0000_0000_0100_0000_0000)) by (bit_vector)
        requires
            w == v | 0x40_0000u32,
    ;
    assert(masked(v, 0b1011_1111_1110_0000_0000_1100_0000_0000, 0b1011_1000_0000_0000_0000_1100_0000_0000)
        ==> masked(w, 0b1011_1111_1110_0000_0000_1100_0000_0000, 0b1011_1000_0100_0000_0000_1100_0000_0000)) by (bit_vector)
        requires
            w == v | 0x40_0000u32,
    ;
    assert(masked(v, 0b1011_1111_1100_0000_0000_0000_0000_0000, 0b1011_1001_0000_0000_0000_0000_0000_0000)
        ==> masked(w, 0b1011_1111_1100_0000_0000_0000_0000_0000, 0b1011_1001_0100_0000_0000_0000_0000_0000)) by (bit_vector)
        requires
            w == v | 0x40_0000u32,
    ;
    assert(!masked(w, 0b1011_1111_1110_0000_0000_1100_0000_0000, 0b1011_1000_0000_0000_0000_0100_0000_0000)
        && !masked(w, 0b1011_1111_1110_0000_0000_1100_0000_0000, 0b1011_1000_0000_0000_0000_1100_0000_0000)
        && !masked(w, 0b1011_1111_1100_0000_0000_0000_0000_0000, 0b1011_1001_0000_0000_0000_0000_0000_0000)) by (bit_vector)
        requires
            w == v | 0x40_0000u32,
    ;
    assert(masked(v, 0b1011_1111_1110_0000_0000_1100_0000_0000, 0b1011_1000_0000_0000_0000_0100_0000_0000)
        ==> !masked(w, 0b1011_1111_1110_0000_0000_1100_0000_0000, 0b1011_1000_0100_0000_0000_1100_0000_0000)
        && !masked(w, 0b1011_1111_1100_0000_0000_0000_0000_0000, 0b1011_1001_0100_0000_0000_0000_0000_0000)) by (bit_vector)
        requires
            w == v | 0x40_0000u32,
    ;
    assert(masked(v, 0b1011_1111_1110_0000_0000_1100_0000_0000, 0b1011_1000_0000_0000_0000_1100_0000_0000)
        ==> !masked(v, 0b1011_1111_1110_0000_0000_1100_0000_0000, 0b1011_1000_0000_0000_0000_0100_0000_0000)
        && !masked(w, 0b1011_1111_1110_0000_0000_1100_0000_0000, 0b1011_1000_0100_0000_0000_0100_0000_0000)
        && !masked(w, 0b1011_1111_1100_0000_0000_0000_0000_0000, 0b1011_1001_0100_0000_0000_0000_0000_0000)) by (bit_vector)
        requires
            w == v | 0x40_0000u32,
    ;
    assert(masked(v, 0b1011_1111_1100_0000_0000_0000_0000_0000, 0b1011_1001_0000_0000_0000_0000_0000_0000)
        ==> !masked(v, 0b1011_1111_1110_0000_0000_1100_0000_0000, 0b1011_1000_0000_0000_0000_0100_0000_0000)
        && !masked(v, 0b1011_1111_1110_0000_0000_1100_0000_0000, 0b1011_1000_0000_0000_0000_1100_0000_0000)
        && !masked(w, 0b1011_1111_1110_0000_0000_1100_0000_0000, 0b1011_1000_0100_0000_0000_0100_0000_0000)
        && !masked(w, 0b1011_1111_1110_0000_0000_1100_0000_0000, 0b1011_1000_0100_0000_0000_1100_0000_0000)) by (bit_vector)
        requires
            w == v | 0x40_0000u32,
    ;
}

} // verus!
