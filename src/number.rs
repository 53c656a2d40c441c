//! Binary64 values as bit patterns: classification, ordering and conversion
//! to counts, with the semantics of the IEEE-754 comparison operators and of
//! Rust's saturating float-to-integer cast.
use vstd::arithmetic::power2::{lemma2_to64, lemma2_to64_rest, lemma_pow2_pos, lemma_pow2_strictly_increases, lemma_pow2_unfold, pow2};
use vstd::arithmetic::div_mod::lemma_basic_div;
use vstd::prelude::*;

verus! {

/// 2^52: the weight of the lowest exponent bit.
pub const FRACTION_SPAN: u64 = 0x10_0000_0000_0000;

/// 2^63: the sign bit.
pub const SIGN_BIT: u64 = 0x8000_0000_0000_0000;

/// Bit pattern of the largest finite binary64 value.
pub const LARGEST_FINITE: u64 = 0x7FEF_FFFF_FFFF_FFFF;

/// Bit pattern of the most negative finite binary64 value.
pub const SMALLEST_FINITE: u64 = 0xFFEF_FFFF_FFFF_FFFF;

/// Biased exponent field (11 bits).
pub open spec fn exponent_field(b: u64) -> nat {
    ((b / FRACTION_SPAN) % 0x800) as nat
}

/// Fraction field (52 bits).
pub open spec fn fraction_field(b: u64) -> nat {
    (b % FRACTION_SPAN) as nat
}

pub open spec fn is_nan(b: u64) -> bool {
    exponent_field(b) == 0x7FF && fraction_field(b) != 0
}

pub open spec fn is_negative(b: u64) -> bool {
    b >= SIGN_BIT
}

/// Everything but the sign bit; for non-NaN values it grows with the absolute value.
pub open spec fn magnitude(b: u64) -> nat {
    (b % SIGN_BIT) as nat
}

/// Position on the number line: two non-NaN values compare as their ranks do.
/// Both zeros have rank 0.
pub open spec fn rank(b: u64) -> int {
    if is_negative(b) {
        -magnitude(b)
    } else {
        magnitude(b) as int
    }
}

/// `a <= b` on binary64 values: false whenever either is NaN.
pub open spec fn num_le(a: u64, b: u64) -> bool {
    !is_nan(a) && !is_nan(b) && rank(a) <= rank(b)
}

/// `a < b` on binary64 values: false whenever either is NaN.
pub open spec fn num_lt(a: u64, b: u64) -> bool {
    !is_nan(a) && !is_nan(b) && rank(a) < rank(b)
}

/// The significand as an integer, with the implicit leading bit of normal values.
pub open spec fn significand(b: u64) -> nat {
    if exponent_field(b) == 0 {
        fraction_field(b)
    } else {
        (fraction_field(b) + FRACTION_SPAN) as nat
    }
}

/// The integer part of the absolute value of a non-NaN value: the absolute
/// value is `significand(b) * 2^(e - 1075)` with `e` the exponent field
/// (at least 1).
pub open spec fn whole_part(b: u64) -> nat {
    let e: int = if exponent_field(b) == 0 { 1 } else { exponent_field(b) as int };
    if e < 1075 {
        significand(b) / pow2((1075 - e) as nat)
    } else {
        significand(b) * pow2((e - 1075) as nat)
    }
}

/// The value of `x as usize` for the binary64 value `x`: truncated toward
/// zero and saturated at the ends of `usize`; NaN gives 0.
pub open spec fn count_value(b: u64) -> nat {
    if is_nan(b) || is_negative(b) {
        0
    } else if whole_part(b) > usize::MAX {
        usize::MAX as nat
    } else {
        whole_part(b)
    }
}

pub fn nan_bits(b: u64) -> (r: bool)
    ensures
        r == is_nan(b),
{
    (b / FRACTION_SPAN) % 0x800 == 0x7FF && b % FRACTION_SPAN != 0
}

/// The rank of a bit pattern.
pub fn rank_of(b: u64) -> (r: i64)
    ensures
        r == rank(b),
{
    if b >= SIGN_BIT {
        -((b - SIGN_BIT) as i64)
    } else {
        b as i64
    }
}

/// `a <= b` on binary64 bit patterns.
pub fn le_bits(a: u64, b: u64) -> (r: bool)
    ensures
        r == num_le(a, b),
{
    !nan_bits(a) && !nan_bits(b) && rank_of(a) <= rank_of(b)
}

/// `a < b` on binary64 bit patterns.
pub fn lt_bits(a: u64, b: u64) -> (r: bool)
    ensures
        r == num_lt(a, b),
{
    !nan_bits(a) && !nan_bits(b) && rank_of(a) < rank_of(b)
}

/// 2^k for small k.
fn power_of_two(k: u64) -> (p: u64)
    requires
        k <= 60,
    ensures
        p == pow2(k as nat),
        p > 0,
{
    let mut p: u64 = 1;
    let mut i: u64 = 0;
    proof {
        lemma2_to64();
        lemma2_to64_rest();
    }
    while i < k
        invariant
            i <= k <= 60,
            p == pow2(i as nat),
        decreases k - i,
    {
        proof {
            lemma2_to64();
            lemma2_to64_rest();
            lemma_pow2_unfold((i + 1) as nat);
            if i < 60 {
                lemma_pow2_strictly_increases(i as nat, 60);
            }
        }
        p = p * 2;
        i = i + 1;
    }
    proof {
        lemma_pow2_pos(k as nat);
    }
    p
}

/// The count that a binary64 value stands for: `x as usize`.
pub fn count_of(b: u64) -> (r: usize)
    ensures
        r == count_value(b),
{
    if nan_bits(b) || b >= SIGN_BIT {
        return 0;
    }
    let e_field: u64 = (b / FRACTION_SPAN) % 0x800;
    let m: u64 = if e_field == 0 { b % FRACTION_SPAN } else { b % FRACTION_SPAN + FRACTION_SPAN };
    let e: u64 = if e_field == 0 { 1 } else { e_field };
    proof {
        lemma2_to64();
        lemma2_to64_rest();
    }
    if e < 1023 {
        proof {
            if 1075 - e > 53 {
                lemma_pow2_strictly_increases(53, (1075 - e) as nat);
            }
            assert(m < 0x20_0000_0000_0000);
            assert(pow2(53) == 0x20_0000_0000_0000);
            assert(m < pow2((1075 - e) as nat));
            lemma_basic_div(m as int, pow2((1075 - e) as nat) as int);
        }
        return 0;
    }
    let whole: u64 = if e < 1075 {
        m / power_of_two(1075 - e)
    } else if e - 1075 <= 11 {
        let p = power_of_two(e - 1075);
        proof {
            if e - 1075 < 11 {
                lemma_pow2_strictly_increases((e - 1075) as nat, 11);
            }
            assert(m * p < 0x20_0000_0000_0000 * 2048) by (nonlinear_arith)
                requires m < 0x20_0000_0000_0000, p <= 2048;
        }
        m * p
    } else {
        proof {
            if e - 1075 > 12 {
                lemma_pow2_strictly_increases(12, (e - 1075) as nat);
            }
            let p = pow2((e - 1075) as nat);
            assert(m * p >= 0x10_0000_0000_0000 * 4096) by (nonlinear_arith)
                requires m >= 0x10_0000_0000_0000, p >= 4096;
            assert(whole_part(b) == m * p);
        }
        return usize::MAX;
    };
    if whole as u128 > usize::MAX as u128 {
        usize::MAX
    } else {
        whole as usize
    }
}

} // verus!
