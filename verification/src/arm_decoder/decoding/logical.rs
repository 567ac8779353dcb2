use vstd::prelude::*;
use vstd::arithmetic::power2::{pow2, lemma2_to64, lemma_pow2_pos};
use vstd::bits::{
    lemma_u32_low_bits_mask_is_mod, lemma_u32_shl_is_mul, lemma_u64_shl_is_mul,
    lemma_u32_pow2_no_overflow, lemma_u64_pow2_no_overflow, low_bits_mask,
};
use vstd::std_specs::bits::{u32_leading_ones, axiom_u32_leading_ones};
use crate::arm_decoder::instructions::{Instruction, LogicalOp, logical_op_from};
use crate::arm_decoder::structures::{
    InstructionBytes, Shift, SizeVariant, bit, reg, shift_from, variant_of,
};
use crate::arm_decoder::utilities::{equal_masked, field};

verus! {

/// Logical (immediate): `sf opc 100100 N immr imms Rn Rd`.
pub open spec fn is_immediate(v: u32) -> bool {
    (v & 0b0001_1111_1000_0000_0000_0000_0000_0000) == 0b0001_0010_0000_0000_0000_0000_0000_0000
}

/// Logical (shifted register): `sf opc 01010 shift N Rm imm6 Rn Rd`.
pub open spec fn is_shifted_register(v: u32) -> bool {
    (v & 0b0001_1111_0000_0000_0000_0000_0000_0000) == 0b0000_1010_0000_0000_0000_0000_0000_0000
}

/// The words on which this decoder is defined: a 32-bit immediate form must not ask
/// for a 64-bit pattern and its `imms` must not be all ones; a 32-bit shifted
/// register form needs a shift amount below 32.
pub open spec fn decodable(v: u32) -> bool {
    if is_immediate(v) {
        &&& !(variant_of(v) == SizeVariant::Reg32 && bit(v, 22))
        &&& field(v, 10, 6) != 63
    } else if is_shifted_register(v) {
        !(variant_of(v) == SizeVariant::Reg32 && field(v, 10, 6) > 31)
    } else {
        true
    }
}

/// The base two logarithm of the length of the repeated element of a bitmask
/// immediate: 6 (one 64-bit element) when `n` is set, else read from the leading ones
/// of the six-bit `imms`.
pub open spec fn element_log(n: bool, imms: u32) -> nat {
    if n {
        6
    } else {
        (5 - (u32_leading_ones(imms | 0xFFFF_FFC0) - 26)) as nat
    }
}

/// `count` copies of `pattern`, placed `len` bits apart from bit 0 upwards.
pub open spec fn replicate(pattern: u64, len: nat, count: nat) -> u64
    decreases count,
{
    if count == 0 {
        0
    } else {
        replicate(pattern, len, (count - 1) as nat) | (pattern << (((count - 1) * len) as u64))
    }
}

/// `x` rotated right by `n` bit positions.
pub open spec fn rotr(x: u64, n: u32) -> u64 {
    let k = (n % 64) as u64;
    if k == 0 {
        x
    } else {
        (x >> k) | (x << ((64 - k) as u64))
    }
}

/// The 64-bit value of a bitmask immediate: an element of `2^e` bits whose low
/// `imms mod 2^e + 1` bits are set, repeated across 64 bits and rotated right by `immr`.
pub open spec fn bitmask_value(n: bool, imms: u32, immr: u32) -> u64 {
    let e = element_log(n, imms);
    let len = pow2(e);
    let ones = (imms as nat % pow2(e)) + 1;
    let pattern = (pow2(ones) - 1) as u64;
    rotr(replicate(pattern, len, 64nat / len), immr)
}

/// The logical instruction encoded by `v`, if it is one.
pub open spec fn spec_decode(v: u32) -> Option<Instruction> {
    if is_immediate(v) {
        Some(
            Instruction::LogicalImmediate {
                destination: reg(v, 0, true),
                op: logical_op_from(field(v, 29, 2) as u32),
                operand1: reg(v, 5, false),
                operand2: bitmask_value(bit(v, 22), field(v, 10, 6) as u32, field(v, 16, 6) as u32),
                variant: variant_of(v),
            },
        )
    } else if is_shifted_register(v) {
        Some(
            Instruction::LogicalShiftedRegister {
                destination: reg(v, 0, false),
                inverse_operand2: bit(v, 21),
                op: logical_op_from(field(v, 29, 2) as u32),
                operand1: reg(v, 5, false),
                operand2: reg(v, 16, false),
                shift_amount: field(v, 10, 6) as u64,
                shift_type: shift_from(field(v, 22, 2) as u32),
                variant: variant_of(v),
            },
        )
    } else {
        None
    }
}

/// Decodes the logical instructions (immediate and shifted register forms).
pub fn decode(bytes: InstructionBytes) -> (r: Option<Instruction>)
    requires
        decodable(bytes.0),
    ensures
        r == spec_decode(bytes.0),
{
    proof {
        lemma2_to64();
    }
    // Immediate
    if equal_masked(
        bytes.0,
        0b0001_1111_1000_0000_0000_0000_0000_0000,
        0b0001_0010_0000_0000_0000_0000_0000_0000,
    ) {
        let variant = bytes.variant();
        let is_pattern_double = bytes.bool(22);

        return Some(
            Instruction::LogicalImmediate {
                destination: bytes.register(0, true),
                op: LogicalOp::decode(bytes.immediate_unsigned(29, 2)),
                operand1: bytes.register(5, false),
                operand2: decode_bitmask(
                    is_pattern_double,
                    bytes.immediate_unsigned(10, 6),
                    bytes.immediate_unsigned(16, 6),
                    variant,
                ),
                variant,
            },
        );
    }
    // Shifted register

    if equal_masked(
        bytes.0,
        0b0001_1111_0000_0000_0000_0000_0000_0000,
        0b0000_1010_0000_0000_0000_0000_0000_0000,
    ) {
        let shift_amount = bytes.immediate_unsigned(10, 6) as u64;
        let variant = bytes.variant();

        return Some(
            Instruction::LogicalShiftedRegister {
                destination: bytes.register(0, false),
                inverse_operand2: bytes.bool(21),
                op: LogicalOp::decode(bytes.immediate_unsigned(29, 2)),
                operand1: bytes.register(5, false),
                operand2: bytes.register(16, false),
                shift_type: Shift::decode(bytes.immediate_unsigned(22, 2), true),
                shift_amount: shift_amount,
                variant,
            },
        );
    }
    None
}

proof fn lemma_imms_bits(imms: u32)
    by (bit_vector)
    requires
        imms < 64,
    ensures
        forall|j: u32| 6 <= j < 32 ==> #[trigger] ((imms | 0xFFFF_FFC0) >> j) & 1u32 == 1u32,
        (imms | 0xFFFF_FFC0) == 0xffff_ffffu32 <==> imms == 63,
{
}

/// The leading ones of a six-bit value padded with ones count the ones at its top.
proof fn lemma_leading_ones_bounds(imms: u32)
    requires
        imms < 64,
        imms != 63,
    ensures
        26 <= u32_leading_ones(imms | 0xFFFF_FFC0) < 32,
{
    let x = imms | 0xFFFF_FFC0;
    axiom_u32_leading_ones(x);
    lemma_imms_bits(imms);
    let lo = u32_leading_ones(x);
    if lo < 26 {
        let j = (31 - lo) as u32;
        assert(6 <= j < 32);
        assert((x >> j) & 1u32 == 1u32);
    }
}

/// `x` rotated right by `n` bit positions.
fn rotate_right(x: u64, n: u32) -> (r: u64)
    ensures
        r == rotr(x, n),
{
    let k = (n % 64) as u64;
    if k == 0 {
        x
    } else {
        (x >> k) | (x << (64 - k))
    }
}

/// Expands the `imms`/`immr` encoding of a logical immediate into its 64-bit value.
pub fn decode_bitmask(n: bool, imms: u32, immr: u32, size: SizeVariant) -> (r: u64)
    requires
        imms < 64,
        imms != 63,
    ensures
        r == bitmask_value(n, imms, immr),
{
    proof {
        lemma_leading_ones_bounds(imms);
        lemma2_to64();
    }
    let e: u32 = if n {
        6
    } else {
        let leading_one_count = (imms | 0b1111_1111_1111_1111_1111_1111_1100_0000).leading_ones() - 26;
        5 - leading_one_count
    };
    proof {
        assert(e == element_log(n, imms));
        lemma_u64_pow2_no_overflow(e as nat);
        lemma_u64_shl_is_mul(1, e as u64);
        lemma_u32_pow2_no_overflow(e as nat);
        lemma_u32_shl_is_mul(1, e);
        lemma_pow2_pos(e as nat);
    }
    let pattern_length = 1u64 << (e as u64);
    let element_mask = (1u32 << e) - 1;
    proof {
        assert(element_mask == low_bits_mask(e as nat) as u32);
        lemma_u32_low_bits_mask_is_mod(imms, e as nat);
        assert(pow2(e as nat) <= 64) by {
            if e < 6 {
                vstd::arithmetic::power2::lemma_pow2_strictly_increases(e as nat, 6);
            }
        }
    }
    let one_count = (imms & element_mask) + 1;
    proof {
        assert(one_count <= 64);
        assert(one_count <= 63) by {
            if e == 6 {
                assert(imms % 64 == imms);
            }
        }
        lemma_u64_pow2_no_overflow(one_count as nat);
        lemma_u64_shl_is_mul(1, one_count as u64);
        lemma_pow2_pos(one_count as nat);
    }
    let pattern = (1u64 << (one_count as u64)) - 1;
    let repeat_count = 64 / pattern_length;

    let mut result: u64 = 0;
    let mut index: u64 = 0;
    while index < repeat_count
        invariant
            0 < pattern_length <= 64,
            repeat_count == 64u64 / pattern_length,
            index <= repeat_count,
            result == replicate(pattern, pattern_length as nat, index as nat),
        decreases repeat_count - index,
    {
        assert(index * pattern_length < 64) by (nonlinear_arith)
            requires
                index < repeat_count,
                repeat_count == 64u64 / pattern_length,
                0 < pattern_length,
        ;
        result = result | (pattern << (index * pattern_length));
        index = index + 1;
    }
    rotate_right(result, immr)
}

/// Whether this decoder is defined on `bytes`.
pub fn is_decodable(bytes: InstructionBytes) -> (r: bool)
    ensures
        r == decodable(bytes.0),
{
    proof {
        lemma2_to64();
    }
    let narrow = match bytes.variant() {
        SizeVariant::Reg32 => true,
        SizeVariant::Reg64 => false,
    };
    if equal_masked(
        bytes.0,
        0b0001_1111_1000_0000_0000_0000_0000_0000,
        0b0001_0010_0000_0000_0000_0000_0000_0000,
    ) {
        !(narrow && bytes.bool(22)) && bytes.immediate_unsigned(10, 6) != 63
    } else if equal_masked(
        bytes.0,
        0b0001_1111_0000_0000_0000_0000_0000_0000,
        0b0000_1010_0000_0000_0000_0000_0000_0000,
    ) {
        !(narrow && bytes.immediate_unsigned(10, 6) > 31)
    } else {
        true
    }
}


/// The Arm encoding of logical operations: the `opc` bits 30 and 29 choose AND (00), ORR
/// (01), EOR (10) or ANDS (11), in both the immediate and the shifted register form.
pub proof fn lemma_logical_encoding(v: u32)
    requires
        is_immediate(v) || is_shifted_register(v),
    ensures
        ({
            let op = match spec_decode(v) {
                Some(Instruction::LogicalImmediate { op, .. }) => op,
                Some(Instruction::LogicalShiftedRegister { op, .. }) => op,
                _ => LogicalOp::Or,
            };
            &&& spec_decode(v) is Some
            &&& v & 0x6000_0000 == 0 ==> op == LogicalOp::And { set_flags: false }
            &&& v & 0x6000_0000 == 0x2000_0000 ==> op == LogicalOp::Or
            &&& v & 0x6000_0000 == 0x4000_0000 ==> op == LogicalOp::Xor
            &&& v & 0x6000_0000 == 0x6000_0000 ==> op == LogicalOp::And { set_flags: true }
        }),
{
    vstd::bits::lemma_u32_shr_is_div(v, 29);
    vstd::bits::lemma_u32_low_bits_mask_is_mod(v >> 29u32, 2);
    lemma2_to64();
    assert(low_bits_mask(2) == 3) by {
        vstd::bits::lemma_low_bits_mask_values();
    }
    assert(field(v, 29, 2) == ((v >> 29u32) & 3u32));
    assert(((v >> 29u32) & 3u32) == (v & 0x6000_0000u32) >> 29u32) by (bit_vector);
    assert(v & 0x6000_0000 == 0 || v & 0x6000_0000 == 0x2000_0000 || v & 0x6000_0000 == 0x4000_0000
        || v & 0x6000_0000 == 0x6000_0000) by (bit_vector);
    assert(0u32 >> 29u32 == 0u32 && 0x2000_0000u32 >> 29u32 == 1u32 && 0x4000_0000u32 >> 29u32 == 2u32
        && 0x6000_0000u32 >> 29u32 == 3u32) by (bit_vector);
}

} // verus!
