//! The confidence gate.
//!
//! A confidence is an IEEE-754 binary64 value. It is carried here as its bit
//! pattern (`f64::to_bits`), so that the decision can be stated and proved over
//! integers: the value a pattern stands for is `significand * 2^scale`.

use vstd::arithmetic::power2::{
    lemma2_to64, lemma2_to64_rest, lemma_pow2_pos, lemma_pow2_strictly_increases, pow2,
};
use vstd::prelude::*;

verus! {

/// Bit pattern of the binary64 literal `0.60`.
pub const THRESHOLD_BITS: u64 = 0x3FE3_3333_3333_3333;

/// Bit pattern of positive infinity.
pub const POSITIVE_INFINITY_BITS: u64 = 0x7FF0_0000_0000_0000;

/// Two to the power of the fraction field's width (52 bits).
pub open spec fn fraction_span() -> int {
    0x10_0000_0000_0000
}

/// The sign bit is set.
pub open spec fn is_negative(b: u64) -> bool {
    b >= 0x8000_0000_0000_0000
}

/// The biased exponent field, `0..=2047`.
pub open spec fn exponent_field(b: u64) -> int {
    (b as int / fraction_span()) % 2048
}

/// The fraction field, `0..2^52`.
pub open spec fn fraction_field(b: u64) -> int {
    b as int % fraction_span()
}

pub open spec fn is_nan(b: u64) -> bool {
    exponent_field(b) == 2047 && fraction_field(b) != 0
}

pub open spec fn is_infinite(b: u64) -> bool {
    exponent_field(b) == 2047 && fraction_field(b) == 0
}

/// The integer significand of a finite value (subnormals have no hidden bit).
pub open spec fn significand(b: u64) -> int {
    if exponent_field(b) == 0 {
        fraction_field(b)
    } else {
        fraction_field(b) + fraction_span()
    }
}

/// The power of two by which the significand is scaled.
pub open spec fn scale(b: u64) -> int {
    if exponent_field(b) == 0 {
        -1074
    } else {
        exponent_field(b) - 1075
    }
}

/// The magnitude `significand * 2^scale` of a finite value exceeds 3/5.
pub open spec fn magnitude_exceeds_three_fifths(b: u64) -> bool {
    if scale(b) >= 0 {
        5 * significand(b) * pow2(scale(b) as nat) > 3
    } else {
        5 * significand(b) > 3 * pow2((-scale(b)) as nat)
    }
}

/// The value the pattern stands for is strictly greater than 0.60.
///
/// No binary64 value lies strictly between the literal `0.60` and the real
/// number 3/5, so comparing with 3/5 is comparing with the literal.
pub open spec fn exceeds_threshold(b: u64) -> bool {
    &&& !is_negative(b)
    &&& !is_nan(b)
    &&& (is_infinite(b) || magnitude_exceeds_three_fifths(b))
}

proof fn lemma_threshold_by_bits(b: u64)
    ensures
        exceeds_threshold(b) <==> (THRESHOLD_BITS < b && b <= POSITIVE_INFINITY_BITS),
{
    let span = fraction_span();
    lemma2_to64();
    lemma2_to64_rest();
    assert(pow2(52) == span);
    let e = exponent_field(b);
    let f = fraction_field(b);
    if is_negative(b) {
        assert(b > POSITIVE_INFINITY_BITS);
    } else {
        assert(b as int == e * span + f);
        if e == 2047 {
        } else if e >= 1023 {
            assert(b as int >= 1023 * span);
            if scale(b) < 0 {
                if -scale(b) < 52 {
                    lemma_pow2_strictly_increases((-scale(b)) as nat, 52);
                }
                assert(3 * pow2((-scale(b)) as nat) < 5 * significand(b)) by (nonlinear_arith)
                    requires
                        pow2((-scale(b)) as nat) <= span,
                        span > 0,
                        significand(b) >= span,
                ;
            } else {
                lemma_pow2_pos(scale(b) as nat);
                assert(5 * significand(b) * pow2(scale(b) as nat) > 3) by (nonlinear_arith)
                    requires
                        pow2(scale(b) as nat) > 0,
                        significand(b) >= span,
                        span > 1,
                ;
            }
        } else if e == 1022 {
            assert(pow2(53) == 2 * span);
            assert(scale(b) == -53);
        } else {
            assert(b as int <= 1021 * span + f);
            let k: int = -scale(b);
            assert(k >= 54);
            if k > 54 {
                lemma_pow2_strictly_increases(54, k as nat);
            }
            assert(pow2(54) == 4 * span);
            assert(significand(b) < 2 * span);
            assert(pow2(k as nat) >= 4 * span);
        }
    }
}

/// Decides whether an intent with this confidence is forwarded: exactly when
/// the confidence is strictly greater than 0.60. The boundary itself, negative
/// values and NaN are rejected; positive infinity is accepted.
pub fn confidence_qualifies(confidence_bits: u64) -> (r: bool)
    ensures
        r == exceeds_threshold(confidence_bits),
{
    proof {
        lemma_threshold_by_bits(confidence_bits);
    }
    THRESHOLD_BITS < confidence_bits && confidence_bits <= POSITIVE_INFINITY_BITS
}

} // verus!
