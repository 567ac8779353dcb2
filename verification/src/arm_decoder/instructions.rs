use vstd::prelude::*;
use crate::arm_decoder::decoding;
use crate::arm_decoder::utilities::{INSTRUCTION_SIZE, le_word, read_le_word};
use crate::arm_decoder::structures::{
    Arrangement, Condition, Extension, FPSize, Register, Shift, SizeVariant, SliceSize,
    WritebackOffset,
};

verus! {

#[derive(Debug, Clone, Copy, PartialEq, Eq, Hash)]
pub enum LogicalOp {
    And { set_flags: bool },
    Or,
    Xor,
}

/// The logical operation with two-bit encoding `n`.
pub open spec fn logical_op_from(n: u32) -> LogicalOp {
    if n == 0 {
        LogicalOp::And { set_flags: false }
    } else if n == 1 {
        LogicalOp::Or
    } else if n == 2 {
        LogicalOp::Xor
    } else {
        LogicalOp::And { set_flags: true }
    }
}

impl LogicalOp {
    /// Decodes the two-bit `opc` field of a logical instruction.
    pub fn decode(value: u32) -> (r: Self)
        requires
            value < 4,
        ensures
            r == logical_op_from(value),
    {
        match value {
            0b00 => LogicalOp::And { set_flags: false },
            0b01 => LogicalOp::Or,
            0b10 => LogicalOp::Xor,
            _ => LogicalOp::And { set_flags: true },
        }
    }
}

#[derive(Debug, Clone, Copy, PartialEq, Eq, Hash)]
pub enum AddSubtractOp {
    Add,
    Subtract,
}

/// The operation selected by the `op` bit of an add or subtract instruction.
pub open spec fn add_subtract_op_from(value: bool) -> AddSubtractOp {
    if value {
        AddSubtractOp::Subtract
    } else {
        AddSubtractOp::Add
    }
}

impl AddSubtractOp {
    /// Subtraction when the `op` bit is set, addition otherwise.
    pub fn from_bool(value: bool) -> (r: Self)
        ensures
            r == add_subtract_op_from(value),
    {
        if value {
            AddSubtractOp::Subtract
        } else {
            AddSubtractOp::Add
        }
    }
}

#[derive(Debug, Clone, Copy, PartialEq, Eq, Hash)]
pub enum AddSubtractRightOperand {
    Immediate(u64),
    ShiftedRegister {
        register: Register,
        shift_amount: u64,
        shift_type: Shift,
    },
    ExtendedRegister {
        extension: Extension,
        left_shift_amount: u64,
        register: Register,
    },
}

#[derive(Debug, Clone, Copy, PartialEq, Eq, Hash)]
pub enum LoadStoreOp {
    LoadZeroExtend,
    LoadSignExtend { variant: SizeVariant },
    Store,
}

#[derive(Debug, Clone, Copy, PartialEq, Eq, Hash)]
pub enum LoadStoreOffset {
    Immediate {
        offset: WritebackOffset,
    },
    Register {
        extension: Extension,
        register: Register,
        shift_amount: u64,
    },
}

#[derive(Debug, Clone, Copy, PartialEq, Eq, Hash)]
pub enum ConditionalSelectMode {
    Identity,
    Increment,
    Invert,
    Negate,
}

#[derive(Debug, Clone, Copy, PartialEq, Eq, Hash)]
pub enum BranchTarget {
    RelativeInstructionOffset(i64),
    Register(Register),
}

#[derive(Debug, Clone, Copy, PartialEq, Eq, Hash)]
pub enum BitfieldMoveMode {
    Default,
    Signed,
    Unsigned,
}

#[derive(Debug, Clone, Copy, PartialEq, Eq, Hash)]
pub enum FPToIntegerRoundingMode {
    Away,
    Even,
    PlusInfinity,
    MinusInfinity,
    Zero,
}

#[derive(Debug, Clone, Copy, PartialEq, Eq, Hash)]
pub enum FPMoveDirection {
    FPToInteger,
    IntegerToFP,
}

#[derive(Debug, Clone, Copy, PartialEq, Eq, Hash)]
pub enum FPMoveFPSize {
    Half,
    Single,
    LowerDouble,
    UpperDouble,
}

#[derive(Debug, Clone, Copy, PartialEq, Eq, Hash)]
pub enum ConvertFPIntegerOp {
    IntegerToFP,
    FPToInteger {
        rounding_mode: FPToIntegerRoundingMode,
    },
}

#[derive(Debug, Clone, Copy, PartialEq, Eq, Hash)]
pub enum FPProcessingOp {
    Multiply,        // FMUL
    Divide,          // FDIV
    Add,             // FADD
    Subtract,        // FSUB
    Maximum,         // FMAX
    Minimum,         // FMIN
    MaximumNumber,   // FMAXNM
    MinimumNumber,   // FMINNM
    NegatedMultiply, // FNMUL
}

#[derive(Debug, Clone, Copy, PartialEq, Eq, Hash)]
pub enum SIMDTripleOp {
    SignedHalvingAdd,         // SHADD
    SignedSaturatingAdd,      // SQADD
    SignedRoundingHalvingAdd, // SRHADD
    SignedHalvingSubtract,    // SHSUB
    SignedSaturatingSubtract, // SQSUB

    CompareSignedGT, // CMGT
    CompareSignedGE, // CMGE

    SignedShiftLeft,                   // SSHL
    SignedSaturatingShiftLeft,         // SQSHL
    SignedRoundingShiftLeft,           // SRSHL
    SignedSaturatingRoundingShiftLeft, // SQRSHL

    SignedMaximum, // SMAX
    SignedMinimum, // SMIN

    SignedAbsoluteDifference,              // SABD
    SignedAbsoluteDifferenceAndAccumulate, // SABA

    Add,                                               // ADD
    CompareBitwiseTestBitsNonzero,                     // CMTST
    MultiplyAddAccumulate,                             // MLA
    Multiply,                                          // MUL
    SignedMaximumPairwise,                             // SMAXP
    SignedMinimumPairwise,                             // SMINP
    SignedSaturatingDoublingMultiplyReturningHighHalf, // SQDMULH
    AddPairwise,                                       // ADDP
    FPMaximumNumber,                                   // FMAXNMP
    FPMultiplyAddAccumulate,                           // FMLA
    FPAdd,                                             // FADD
    FPMultiplyExtended,                                // FMULX
    FPCompareEqual,                                    // FCMEQ
    FPMaximum,                                         // FMAX
    FPReciprocalStep,                                  // FRECPS
    BitwiseAnd,                                        // AND
    FPFusedMultiplyAddLongToAccumulator,               // FMLAL, FMLAL2
    BitwiseBitClear,                                   // BIC
    FPMinimumNumber,                                   // FMINNMP
    FPFusedMultiplySubtractFromAccumulator,            // FMLS
    FPSubtract,                                        // FSUB
    FPAbsoluteMaximum,                                 // FAMAX
    FPMinimum,                                         // FMIN
    FPReciprocalSquareRootStep,                        // FRSQRTS
    BitwiseOr,                                         // ORR
    FPFusedMultiplySubtractLongFromAccumulator,        // FMLSL, FMLSL2
    BitwiseOrNot,                                      // ORN

    UnsignedHalvingAdd,         // UHADD
    UnsignedSaturatingAdd,      // UQADD
    UnsignedRoundingHalvingAdd, // URHADD
    UnsignedHalvingSubtract,    // UHSUB
    UnsignedSaturatingSubtract, // UQSUB

    CompareUnsignedGT, // CMHI
    CompareUnsignedGE, // CMHS

    UnsignedShiftLeft,                   // USHL
    UnsignedSaturatingShiftLeft,         // UQSHL
    UnsignedRoundingShiftLeft,           // URSHL
    UnsignedSaturatingRoundingShiftLeft, // UQRSHL

    UnsignedMaximum, // UMAX
    UnsignedMinimum, // UMIN

    UnsignedAbsoluteDifference,              // UABD
    UnsignedAbsoluteDifferenceAndAccumulate, // UABA

    Subtract,                                                  // SUB
    CompareEqual,                                              // CMEQ
    MultiplySubtract,                                          // MLS
    PolynomialMultiply,                                        // PMUL
    UnsignedMaximumPairwise,                                   // UMAXP
    UnsignedMinimumPairwise,                                   // UMINP
    SignedSaturatingRoundingDoublingMultiplyReturningHighHalf, // SQRDMULH

    FPMaximumNumberPairwise,                             // FMAXNMP
    FPAddPairwise,                                       // FADDP
    FPMultiply,                                          // FMUL
    FPCompareGE,                                         // FCMGE
    FPAbsoluteCompareGE,                                 // FACGE
    FPMaximumPairwise,                                   // FMAXP
    FPDivide,                                            // FDIV
    BitwiseXor,                                          // EOR
    FPFusedMultiplyAddLongToAccumulatorUpperHalf,        // FMLAL2
    BitwiseSelect,                                       // BSL
    FPMinimumNumberPairwise,                             // FMINNMP
    FPAbsoluteDifference,                                // FABD
    FPAbsoluteMinimum,                                   // FAMIN
    FPCompareGT,                                         // FCMGT
    FPAbsoluteCompareGT,                                 // FACGT
    FPMinimumPairwise,                                   // FMINP
    FPScale,                                             // FSCALE
    BitwiseInsertIfTrue,                                 // BIT
    FPFusedMultiplySubtractLongFromAccumulatorUpperHalf, // FMLSL2
    BitwiseInsertIfFalse,                                // BIF
}

#[derive(Debug, Clone, Copy, PartialEq, Eq, Hash)]
#[allow(inconsistent_fields)]
pub enum Instruction {
    // ADD, ADDS, SUB, SUBS
    AddSubtract {
        destination: Register,
        op: AddSubtractOp,
        set_flags: bool,
        operand1: Register,
        operand2: AddSubtractRightOperand,
        variant: SizeVariant,
    },

    // ADR, ADRP
    FormPCRelativeAddress {
        aligned_to_page: bool,
        destination: Register,
        value: i64,
    },

    // MOVN, MOVZ, MOVK
    MoveWide {
        destination: Register,
        keep_shift: Option<u32>,
        source: Register,
        value: u64,
        variant: SizeVariant,
    },

    // AND, ANDS, EOR, ORR
    LogicalImmediate {
        destination: Register,
        op: LogicalOp,
        operand1: Register,
        operand2: u64,
        variant: SizeVariant,
    },

    // AND, ANDS, BIC, BICS, ORR, ORN, EOR, EON
    LogicalShiftedRegister {
        destination: Register,
        inverse_operand2: bool,
        op: LogicalOp,
        operand1: Register,
        operand2: Register,
        shift_amount: u64,
        shift_type: Shift,
        variant: SizeVariant,
    },

    // STRB, LDRB, LDRSB, STRH, LDRH, LDRSH, STR, LDR, LDRSW
    // STURB, LDURB, LDURSB, STURH, LDURH, LDURSH, STUR, LDUR, LDURSW
    LoadStoreRegister {
        address: Register,
        offset: LoadStoreOffset,
        op: LoadStoreOp,
        size: SliceSize,
        value: Register,
    },

    // LDR, LDRSW
    LoadLiteral {
        destination: Register,
        relative_instruction_offset: i64,
        sign_extend: bool,
        size: SliceSize,
    },

    // STP, LDP, LDPSW
    LoadStorePairOfRegisters {
        address: Register,
        offset: WritebackOffset,
        op: LoadStoreOp,
        size: SizeVariant,
        value1: Register,
        value2: Register,
        variant: SizeVariant,
    },

    // CSEL, CSINC, CSINV, CSNEG
    ConditionalSelect {
        condition: Condition,
        destination: Register,
        op: ConditionalSelectMode,
        operand1: Register,
        operand2: Register,
        variant: SizeVariant,
    },

    // SBFM, BFM, UBFM
    BitfieldMove {
        destination: Register,
        leftmost_bit_number: u32,
        mode: BitfieldMoveMode,
        right_rotate_amount: u32,
        source: Register,
        variant: SizeVariant,
    },

    // BRK
    Breakpoint {
        immediate: u16,
    },

    // PRFM
    PrefetchMemory,

    // NOP
    Nop,

    // UDF
    PermanentlyUndefined {
        immediate: u16,
    },

    // SVC
    SupervisorCall {
        argument: u16,
    },

    // RET
    Return {
        target: Register,
    },

    // B, BR, BL, BLR
    UnconditionalBranch {
        link: bool,
        target: BranchTarget,
    },

    // B.cond
    BranchConditionally {
        condition: Condition,
        target: i64,
    },

    // CBZ, CBNZ
    CompareAndBranch {
        branch_if_zero: bool,
        register: Register,
        target: i64,
        variant: SizeVariant,
    },

    // TBZ, TBNZ
    TestBitAndBranch {
        branch_if_zero: bool,
        register: Register,
        target: i64,
        test_bit: u32,
        variant: SizeVariant,
    },

    // Allowed conversions are (W, X) <-> (S, D, H)
    ConvertFPInteger {
        destination: Register,
        fp_size: FPSize,
        integer_size: SizeVariant,
        op: ConvertFPIntegerOp,
        operand: Register,
        signed: bool,
    },

    // Allowed conversions are:
    //  (W, X) <-> H
    //  W      <-> S
    //  X      <-> (D, V.D[1])
    FPMove {
        destination: Register,
        direction: FPMoveDirection,
        fp_size: FPMoveFPSize,
        integer_size: SizeVariant,
        operand: Register,
    },

    FPProcessing {
        destination: Register,
        op: FPProcessingOp,
        operand1: Register,
        operand2: Register,
        size: FPSize,
    },

    SIMDTriple {
        arrangement: Arrangement,
        destination: Register,
        op: SIMDTripleOp,
        operand1: Register,
        operand2: Register,
    },

    Unknown,
}


/// Whether every whole instruction word of `data` is accepted by the decoder.
pub open spec fn all_decodable(data: Seq<u8>) -> bool {
    forall|k: int| 0 <= k < data.len() / 4 ==> #[trigger] decoding::decodable(le_word(data, 4 * k))
}

/// Whether every whole little-endian word of `data` is one the decoder accepts.
pub fn words_decodable(data: &[u8]) -> (r: bool)
    ensures
        r == all_decodable(data@),
{
    let count = data.len() / 4;
    let mut k: usize = 0;
    while k < count
        invariant
            count == data.len() / 4,
            k <= count,
            forall|j: int| 0 <= j < k ==> #[trigger] decoding::decodable(le_word(data@, 4 * j)),
        decreases count - k,
    {
        assert(4 * k + 4 <= data.len()) by (nonlinear_arith)
            requires
                k < count,
                count == data.len() / 4,
        ;
        if !decoding::is_decodable(read_le_word(data, 4 * k)) {
            return false;
        }
        k = k + 1;
    }
    true
}

impl Instruction {
    /// Decodes one instruction word.
    pub fn decode(value: u32) -> (r: Self)
        requires
            decoding::decodable(value),
        ensures
            r == decoding::spec_decode(value),
    {
        decoding::decode(value)
    }

    /// Decodes every whole little-endian instruction word of `data`, in order; a
    /// trailing partial word is ignored.
    pub fn decode_bytes(data: &[u8]) -> (r: Vec<Self>)
        requires
            all_decodable(data@),
        ensures
            r.len() == data.len() / 4,
            forall|k: int|
                0 <= k < r.len() ==> #[trigger] r[k] == decoding::spec_decode(
                    le_word(data@, 4 * k),
                ),
    {
        let size = INSTRUCTION_SIZE as usize;
        assert(size == 4);
        let count = data.len() / size;
        let mut result: Vec<Self> = Vec::new();
        let mut instruction_index: usize = 0;
        while instruction_index < count
            invariant
                size == 4,
                count == data.len() / 4,
                all_decodable(data@),
                instruction_index <= count,
                result.len() == instruction_index,
                forall|k: int|
                    0 <= k < instruction_index ==> #[trigger] result[k] == decoding::spec_decode(
                        le_word(data@, 4 * k),
                    ),
            decreases count - instruction_index,
        {
            assert(4 * instruction_index + 4 <= data.len()) by (nonlinear_arith)
                requires
                    instruction_index < count,
                    count == data.len() / 4,
            ;
            let offset = size * instruction_index;
            let word = read_le_word(data, offset);
            assert(decoding::decodable(le_word(data@, 4 * (instruction_index as int))));
            result.push(Instruction::decode(word));
            instruction_index = instruction_index + 1;
        }
        result
    }
}

} // verus!
