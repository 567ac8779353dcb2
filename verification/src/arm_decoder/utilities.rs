use vstd::prelude::*;
use vstd::arithmetic::power2::{pow2, lemma2_to64, lemma_pow2_pos};
use vstd::bits::{
    lemma_u32_shr_is_div, lemma_u32_low_bits_mask_is_mod, lemma_u32_shl_is_mul,
    lemma_u32_pow2_no_overflow, lemma_u64_low_bits_mask_is_mod, lemma_u64_shl_is_mul,
    lemma_u64_pow2_no_overflow, low_bits_mask,
};

verus! {

/// Size in bytes of every AArch64 instruction.
pub const INSTRUCTION_SIZE: u64 = 4;

/// The `size`-bit field of `value` that starts at bit `start`, as a number.
pub open spec fn field(value: u32, start: u32, size: u32) -> nat {
    (value as nat / pow2(start as nat)) % pow2(size as nat)
}

/// The two's complement reading of a `bits`-wide field whose unsigned value is `low`.
pub open spec fn twos_complement(low: nat, bits: nat) -> int {
    if low < pow2((bits - 1) as nat) {
        low as int
    } else {
        low as int - pow2(bits)
    }
}

/// The low `bits` bits of `value`, read as a signed two's complement number.
pub open spec fn sign_extended(value: u32, bits: u32) -> int {
    twos_complement(field(value, 0, bits), bits as nat)
}

/// A mask of the `bits` lowest bits.
pub fn bit_mask(bits: u32) -> (r: u32)
    requires
        bits < 32,
    ensures
        r as nat == pow2(bits as nat) - 1,
{
    proof {
        lemma_u32_pow2_no_overflow(bits as nat);
        lemma_u32_shl_is_mul(1, bits);
    }
    (1u32 << bits) - 1
}

/// Extracts `size` bits of `value` starting at bit `start`.
pub fn get_bits(value: u32, start: u32, size: u32) -> (r: u32)
    requires
        start < 32,
        size < 32,
    ensures
        r as nat == field(value, start, size),
{
    let mask = bit_mask(size);
    let shifted = value >> start;
    proof {
        lemma_u32_shr_is_div(value, start);
        lemma_u32_pow2_no_overflow(size as nat);
        lemma_u32_low_bits_mask_is_mod(shifted, size as nat);
        assert(mask == low_bits_mask(size as nat) as u32);
    }
    shifted & mask
}

/// Extracts the bits `start..=end` of `value` (both ends inclusive).
pub fn get_bits_range(value: u32, start: u32, end: u32) -> (r: u32)
    requires
        start <= end < 32,
        end - start + 1 < 32,
    ensures
        r as nat == field(value, start, (end - start + 1) as u32),
{
    get_bits(value, start, end - start + 1)
}

/// Whether bit `start` of `value` is set.
pub fn decode_bool(value: u32, start: u32) -> (r: bool)
    requires
        start < 32,
    ensures
        r == (field(value, start, 1) == 1),
{
    get_bits(value, start, 1) == 1
}

proof fn lemma_sign_extend_bits(value: u32, shift: u32)
    by (bit_vector)
    requires
        shift < 32,
    ensures
        ((value << shift) as i32 >> shift) as int == (if ((value as u64) & (((1u64 << ((32
            - shift) as u64)) - 1) as u64)) < (1u64 << ((31 - shift) as u64)) {
            ((value as u64) & (((1u64 << ((32 - shift) as u64)) - 1) as u64)) as int
        } else {
            ((value as u64) & (((1u64 << ((32 - shift) as u64)) - 1) as u64)) as int - (1u64 << ((32
                - shift) as u64)) as int
        }),
{
}

/// Reads the low `bits` bits of `value` as a signed two's complement number.
pub fn sign_extend(value: u32, bits: u32) -> (r: i32)
    requires
        1 <= bits <= 32,
    ensures
        r as int == sign_extended(value, bits),
        -(pow2((bits - 1) as nat) as int) <= r < pow2((bits - 1) as nat),
{
    let shift = 32 - bits;
    proof {
        lemma_pow2_pos(bits as nat);
        vstd::arithmetic::power2::lemma_pow2_unfold(bits as nat);
        lemma_sign_extend_bits(value, shift);
        lemma_u64_pow2_no_overflow(bits as nat);
        lemma_u64_shl_is_mul(1, bits as u64);
        lemma_u64_pow2_no_overflow((bits - 1) as nat);
        lemma_u64_shl_is_mul(1, (bits - 1) as u64);
        lemma_pow2_pos((bits - 1) as nat);
        lemma_u64_low_bits_mask_is_mod(value as u64, bits as nat);
        lemma2_to64();
        assert(pow2(0) == 1);
        assert((value as nat) / pow2(0) == value as nat);
        assert((((1u64 << ((32 - shift) as u64)) - 1) as u64) == low_bits_mask(bits as nat) as u64);
    }
    (#[verifier::truncate] ((value << shift) as i32) >> shift) as i32
}

/// Whether `value` agrees with `expe` on the bits selected by `mask`.
pub fn equal_masked(value: u32, mask: u32, expe: u32) -> (r: bool)
    ensures
        r == ((value & mask) == expe),
{
    (value & mask) == expe
}

/// The little-endian 32-bit word stored at `offset` in `bytes`.
pub open spec fn le_word(bytes: Seq<u8>, offset: int) -> u32 {
    (bytes[offset] + bytes[offset + 1] * 256 + bytes[offset + 2] * 65536 + bytes[offset + 3]
        * 16777216) as u32
}

/// Reads the little-endian 32-bit word stored at `offset` in `data`.
pub fn read_le_word(data: &[u8], offset: usize) -> (r: u32)
    requires
        offset + 4 <= data.len(),
    ensures
        r == le_word(data@, offset as int),
{
    (data[offset] as u32) + (data[offset + 1] as u32) * 256 + (data[offset + 2] as u32) * 65536
        + (data[offset + 3] as u32) * 16777216
}


/// Sign extension reads a `bits`-wide two's complement field: it gives a number in the
/// range of `bits` bits that agrees with `value` modulo `2^bits`; so a number in that
/// range, stored in the low `bits` bits of `value`, is read back as itself.
pub proof fn lemma_sign_extension_round_trip(value: u32, bits: u32, x: int)
    requires
        1 <= bits <= 32,
    ensures
        -(pow2((bits - 1) as nat) as int) <= sign_extended(value, bits) < pow2((bits - 1) as nat),
        (sign_extended(value, bits) - value as int) % (pow2(bits as nat) as int) == 0,
        -(pow2((bits - 1) as nat) as int) <= x < pow2((bits - 1) as nat) && x % (pow2(
            bits as nat,
        ) as int) == value as int % (pow2(bits as nat) as int) ==> sign_extended(value, bits) == x,
{
    let p = pow2(bits as nat) as int;
    let h = pow2((bits - 1) as nat) as int;
    lemma_pow2_pos(bits as nat);
    lemma_pow2_pos((bits - 1) as nat);
    vstd::arithmetic::power2::lemma_pow2_unfold(bits as nat);
    assert(p == 2 * h);
    assert(field(value, 0, bits) == value as nat % (p as nat)) by {
        lemma2_to64();
    }
    let low = value as int % p;
    assert(0 <= low < p) by (nonlinear_arith)
        requires
            p > 0,
            low == value as int % p,
    ;
    let q = value as int / p;
    vstd::arithmetic::div_mod::lemma_fundamental_div_mod(value as int, p);
    assert(low - value as int == (-q) * p) by (nonlinear_arith)
        requires
            value as int == p * q + low,
    ;
    vstd::arithmetic::div_mod::lemma_mod_multiples_basic(-q, p);
    assert(low - p - value as int == (-q - 1) * p) by (nonlinear_arith)
        requires
            value as int == p * q + low,
    ;
    vstd::arithmetic::div_mod::lemma_mod_multiples_basic(-q - 1, p);
    if -h <= x < h && x % p == low {
        if x >= 0 {
            vstd::arithmetic::div_mod::lemma_fundamental_div_mod_converse(x, p, 0, x);
        } else {
            vstd::arithmetic::div_mod::lemma_fundamental_div_mod_converse(x, p, -1, x + p);
        }
    }
}


/// A negative 32-bit number read as unsigned is that number plus `2^32`.
proof fn lemma_i32_as_u32(x: i32)
    ensures
        (x as u32) as int == if x >= 0 {
            x as int
        } else {
            x as int + 0x1_0000_0000
        },
{
    assert(x >= 0 ==> (x as u32) as int == x as int) by (bit_vector);
    assert(x < 0 ==> (x as u32) as int == x as int + 0x1_0000_0000) by (bit_vector);
}

/// Sign extension of a masked number: a number `x` in the range of `bits` bits, stored
/// as its low `bits` bits, is read back as itself; and the low `bits` bits of a
/// sign-extended field are the field.
pub proof fn lemma_sign_extension_masked(x: i32, value: u32, bits: u32)
    requires
        1 <= bits <= 31,
    ensures
        -(pow2((bits - 1) as nat) as int) <= x < pow2((bits - 1) as nat) ==> sign_extended(
            (x as u32) & (low_bits_mask(bits as nat) as u32),
            bits,
        ) == x,
        ((sign_extended(value, bits) as i32) as u32) & (low_bits_mask(bits as nat) as u32) == value
            & (low_bits_mask(bits as nat) as u32),
{
    let p = pow2(bits as nat) as int;
    lemma_pow2_pos(bits as nat);
    lemma_u32_pow2_no_overflow(bits as nat);
    vstd::arithmetic::power2::lemma_pow2_strictly_increases(bits as nat, 32);
    lemma2_to64();
    assert(pow2(32) == 0x1_0000_0000);
    // 2^32 is a multiple of 2^bits
    vstd::arithmetic::power2::lemma_pow2_adds(bits as nat, (32 - bits) as nat);
    let m = pow2((32 - bits) as nat) as int;
    assert(0x1_0000_0000 == p * m);
    let stored = (x as u32) & (low_bits_mask(bits as nat) as u32);
    lemma_u32_low_bits_mask_is_mod(x as u32, bits as nat);
    lemma_i32_as_u32(x);
    // the stored bits agree with x modulo 2^bits
    assert(stored as int == (x as u32) as int % p);
    assert(((x as u32) as int - x as int) % p == 0) by {
        if x < 0 {
            vstd::arithmetic::div_mod::lemma_mod_multiples_basic(m, p);
            assert((x as u32) as int - x as int == m * p) by (nonlinear_arith)
                requires
                    (x as u32) as int == x as int + 0x1_0000_0000,
                    0x1_0000_0000 == p * m,
            ;
        } else {
            assert((x as u32) as int - x as int == 0);
        }
    }
    lemma_sign_extension_round_trip(stored, bits, x as int);
    if -(pow2((bits - 1) as nat) as int) <= x < pow2((bits - 1) as nat) {
        // stored == (x as u32) % p and (x as u32) ≡ x, so x % p == stored % p
        let q = (x as u32) as int / p;
        vstd::arithmetic::div_mod::lemma_fundamental_div_mod((x as u32) as int, p);
        let d = ((x as u32) as int - x as int) / p;
        vstd::arithmetic::div_mod::lemma_fundamental_div_mod((x as u32) as int - x as int, p);
        assert(x as int == p * (q - d) + stored as int) by (nonlinear_arith)
            requires
                (x as u32) as int == p * q + (x as u32) as int % p,
                (x as u32) as int - x as int == p * d + ((x as u32) as int - x as int) % p,
                ((x as u32) as int - x as int) % p == 0,
                stored as int == (x as u32) as int % p,
        ;
        assert(0 <= stored < p) by {
            vstd::arithmetic::div_mod::lemma_mod_bound((x as u32) as int, p);
        }
        vstd::arithmetic::div_mod::lemma_fundamental_div_mod_converse(x as int, p, q - d, stored as int);
        assert(stored as int % p == stored as int) by {
            vstd::arithmetic::div_mod::lemma_small_mod(stored as nat, p as nat);
        }
    }
    // the second clause: the sign-extended value agrees with `value` modulo 2^bits
    let r = sign_extended(value, bits);
    lemma_sign_extension_round_trip(value, bits, 0);
    assert(-0x8000_0000 <= r < 0x8000_0000) by {
        vstd::arithmetic::power2::lemma_pow2_strictly_increases((bits - 1) as nat, 31);
        assert(pow2(31) == 0x8000_0000);
    }
    let y = r as i32;
    assert(y as int == r);
    lemma_i32_as_u32(y);
    lemma_u32_low_bits_mask_is_mod(y as u32, bits as nat);
    lemma_u32_low_bits_mask_is_mod(value, bits as nat);
    let a = (y as u32) as int;
    assert((a - value as int) % p == 0) by {
        if y < 0 {
            assert(a - value as int == (r - value as int) + p * m) by (nonlinear_arith)
                requires
                    a == r + 0x1_0000_0000,
                    0x1_0000_0000 == p * m,
            ;
            vstd::arithmetic::div_mod::lemma_mod_multiples_vanish(m, r - value as int, p);
        } else {
            assert(a - value as int == r - value as int);
        }
    }
    vstd::arithmetic::div_mod::lemma_mod_equivalence(a, value as int, p);
}

} // verus!
