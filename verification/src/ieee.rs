//! IEEE 754 values as bit patterns.

use vstd::prelude::*;

verus! {

/// The bit pattern of the single-precision value 0.
pub const ZERO: u32 = 0;

/// The bit pattern of the single-precision value 1.
pub const ONE: u32 = 0x3F80_0000;

/// Whether the single-precision pattern is a NaN.
pub open spec fn is_nan(bits: u32) -> bool {
    bits % 0x8000_0000 > 0x7F80_0000
}

/// A number that orders single-precision patterns as their values are
/// ordered, for patterns that are no NaN: the magnitude bits, negated where
/// the sign bit is set. Both zeros get 0.
pub open spec fn rank(bits: u32) -> int {
    if bits >= 0x8000_0000 {
        -(bits - 0x8000_0000)
    } else {
        bits as int
    }
}

/// The order `>` of single-precision values, on their patterns. A NaN is
/// greater than nothing, and nothing is greater than a NaN.
pub open spec fn greater(a: u32, b: u32) -> bool {
    !is_nan(a) && !is_nan(b) && rank(a) > rank(b)
}

/// Whether the pattern is a NaN.
pub fn nan(bits: u32) -> (r: bool)
    ensures
        r == is_nan(bits),
{
    bits % 0x8000_0000 > 0x7F80_0000
}

/// Whether the value of `a` is greater than the value of `b`.
pub fn gt(a: u32, b: u32) -> (r: bool)
    ensures
        r == greater(a, b),
{
    if nan(a) || nan(b) {
        return false;
    }
    let ra: i64 = if a >= 0x8000_0000 {
        -((a - 0x8000_0000) as i64)
    } else {
        a as i64
    };
    let rb: i64 = if b >= 0x8000_0000 {
        -((b - 0x8000_0000) as i64)
    } else {
        b as i64
    };
    ra > rb
}

/// Little-endian assembly of four bytes.
pub open spec fn le_u32(b0: u8, b1: u8, b2: u8, b3: u8) -> int {
    b0 as int + 256 * (b1 as int) + 65536 * (b2 as int) + 16777216 * (b3 as int)
}

/// Little-endian assembly of two bytes.
pub open spec fn le_u16(b0: u8, b1: u8) -> int {
    b0 as int + 256 * (b1 as int)
}

/// `2^k`.
pub open spec fn pow2(k: nat) -> int
    decreases k,
{
    if k == 0 {
        1
    } else {
        2 * pow2((k - 1) as nat)
    }
}

/// The position of the highest set bit of `m`, for `m >= 1`.
pub open spec fn floor_log2(m: int) -> nat
    decreases m,
{
    if m <= 1 {
        0
    } else {
        1 + floor_log2(m / 2)
    }
}

/// The single-precision pattern of the value that the half-precision
/// pattern `h` stands for. Every half-precision value is a single-precision
/// value, so nothing is rounded: zeros and infinities keep their sign,
/// a subnormal half becomes a normal single, and a NaN keeps its payload
/// and becomes quiet.
pub open spec fn widened_half(h: u16) -> int {
    let sign = (h as int / 0x8000) * 0x8000_0000;
    let exponent = (h as int / 0x400) % 32;
    let fraction = h as int % 0x400;
    if exponent == 31 {
        if fraction == 0 {
            sign + 0x7F80_0000
        } else if fraction >= 0x200 {
            sign + 0x7F80_0000 + fraction * 0x2000
        } else {
            sign + 0x7FC0_0000 + fraction * 0x2000
        }
    } else if exponent == 0 {
        if fraction == 0 {
            sign
        } else {
            let k = floor_log2(fraction);
            sign + (103 + k) * 0x80_0000 + (fraction * pow2((23 - k) as nat) - 0x80_0000)
        }
    } else {
        sign + (exponent + 112) * 0x80_0000 + fraction * 0x2000
    }
}

proof fn lemma_pow2_sum(a: nat, b: nat)
    ensures
        pow2(a + b) == pow2(a) * pow2(b),
        pow2(a) >= 1,
    decreases a,
{
    if a > 0 {
        lemma_pow2_sum((a - 1) as nat, b);
        assert(2 * (pow2((a - 1) as nat) * pow2(b)) == (2 * pow2((a - 1) as nat)) * pow2(b))
            by (nonlinear_arith);
    }
}

proof fn lemma_floor_log2_brackets(m: int)
    requires
        m >= 1,
    ensures
        pow2(floor_log2(m)) <= m < 2 * pow2(floor_log2(m)),
    decreases m,
{
    if m > 1 {
        lemma_floor_log2_brackets(m / 2);
    }
}

/// The assembly of four bytes fits in 32 bits.
pub proof fn lemma_le_u32_fits(b0: u8, b1: u8, b2: u8, b3: u8)
    ensures
        0 <= le_u32(b0, b1, b2, b3) <= 0xFFFF_FFFF,
        le_u32(b0, b1, b2, b3) as u32 == le_u32(b0, b1, b2, b3),
{
}

/// A widened half fits in 32 bits: the pattern that `widened_half` gives is
/// a single-precision pattern.
pub proof fn lemma_widened_half_fits(h: u16)
    ensures
        0 <= widened_half(h) <= 0xFFFF_FFFF,
        widened_half(h) as u32 == widened_half(h),
{
    let exponent = (h as int / 0x400) % 32;
    let fraction = h as int % 0x400;
    if exponent == 0 && fraction != 0 {
        let k = floor_log2(fraction);
        lemma_floor_log2_bound(fraction);
        lemma_floor_log2_brackets(fraction);
        lemma_pow2_sum(k, (23 - k) as nat);
        lemma_pow2_sum((23 - k) as nat, 0);
        assert(pow2(23) == 0x80_0000) by {
            reveal_with_fuel(pow2, 24);
        }
        let scale = pow2((23 - k) as nat);
        assert(pow2(k) * scale <= fraction * scale < 2 * pow2(k) * scale) by (nonlinear_arith)
            requires
                pow2(k) <= fraction < 2 * pow2(k),
                scale >= 1,
        ;
        assert(2 * pow2(k) * scale == 2 * (pow2(k) * scale)) by (nonlinear_arith);
    }
}

proof fn lemma_floor_log2_double(m: int)
    requires
        m >= 1,
    ensures
        floor_log2(2 * m) == floor_log2(m) + 1,
{
    assert((2 * m) / 2 == m);
}

proof fn lemma_floor_log2_top(m: int)
    requires
        0x400 <= m < 0x800,
    ensures
        floor_log2(m) == 10,
{
    reveal_with_fuel(floor_log2, 12);
}

proof fn lemma_pow2_shift(k: nat)
    ensures
        pow2(k + 13) == 0x2000 * pow2(k),
{
    reveal_with_fuel(pow2, 14);
}

/// Widens a half-precision bit pattern to the single-precision pattern of
/// the same value.
pub fn widen_half(h: u16) -> (bits: u32)
    ensures
        bits == widened_half(h),
{
    let sign: u32 = if h >= 0x8000 { 0x8000_0000 } else { 0 };
    let exponent: u32 = ((h / 0x400) % 32) as u32;
    let fraction: u32 = (h % 0x400) as u32;
    if exponent == 31 {
        if fraction == 0 {
            sign + 0x7F80_0000
        } else if fraction >= 0x200 {
            sign + 0x7F80_0000 + fraction * 0x2000
        } else {
            sign + 0x7FC0_0000 + fraction * 0x2000
        }
    } else if exponent == 0 {
        if fraction == 0 {
            sign
        } else {
            let ghost k = floor_log2(fraction as int);
            proof {
                lemma_floor_log2_bound(fraction as int);
            }
            let mut scaled: u32 = fraction;
            let mut shifts: u32 = 0;
            while scaled < 0x400
                invariant
                    1 <= scaled < 0x800,
                    shifts <= 10,
                    scaled == fraction * pow2(shifts as nat),
                    floor_log2(scaled as int) == k + shifts,
                    k <= 10,
                decreases 0x800 - scaled,
            {
                proof {
                    lemma_floor_log2_double(scaled as int);
                    lemma_floor_log2_bound(scaled as int);
                    assert(fraction * (2 * pow2(shifts as nat)) == 2 * (fraction * pow2(
                        shifts as nat,
                    ))) by (nonlinear_arith);
                }
                scaled = scaled * 2;
                shifts = shifts + 1;
            }
            proof {
                lemma_floor_log2_top(scaled as int);
                lemma_pow2_shift(shifts as nat);
                assert(fraction * (0x2000 * pow2(shifts as nat)) == (fraction * pow2(
                    shifts as nat,
                )) * 0x2000) by (nonlinear_arith);
            }
            sign + (113 - shifts) * 0x80_0000 + (scaled - 0x400) * 0x2000
        }
    } else {
        sign + (exponent + 112) * 0x80_0000 + fraction * 0x2000
    }
}

proof fn lemma_floor_log2_bound(m: int)
    requires
        1 <= m < 0x400,
    ensures
        floor_log2(m) <= 9,
{
    reveal_with_fuel(floor_log2, 12);
}

} // verus!
