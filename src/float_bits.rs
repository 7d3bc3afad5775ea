//! IEEE-754 single-precision values, held as their 32-bit patterns.
//!
//! A finite single-precision value is always an integer multiple of `2^-149`,
//! so its meaning is stated here as that integer (`scaled_value`). Ordering of
//! values then is ordering of integers, with the two infinities at the ends
//! and NaN unordered.
use vstd::arithmetic::power2::{
    lemma_pow2_adds, lemma_pow2_pos, lemma_pow2_strictly_increases, lemma_pow2_unfold, pow2,
};
use vstd::prelude::*;

verus! {

/// Bit pattern of the sign bit.
pub const SIGN_BIT: u32 = 0x8000_0000;

/// Bit pattern of positive infinity: the largest magnitude pattern that is not NaN.
pub const POSITIVE_INFINITY_BITS: u32 = 0x7f80_0000;

/// The sign bit is set (also for negative zero and negative NaN).
pub open spec fn sign_negative(b: u32) -> bool {
    b >= SIGN_BIT
}

/// The pattern without its sign bit.
pub open spec fn magnitude_bits(b: u32) -> nat {
    (b as nat) % (SIGN_BIT as nat)
}

/// The 8-bit biased exponent field.
pub open spec fn biased_exponent(b: u32) -> nat {
    magnitude_bits(b) / pow2(23)
}

/// The 23-bit fraction field.
pub open spec fn fraction(b: u32) -> nat {
    magnitude_bits(b) % pow2(23)
}

pub open spec fn is_nan(b: u32) -> bool {
    biased_exponent(b) == 255 && fraction(b) != 0
}

pub open spec fn is_infinite(b: u32) -> bool {
    biased_exponent(b) == 255 && fraction(b) == 0
}

/// Zero, subnormal or normal.
pub open spec fn is_finite(b: u32) -> bool {
    biased_exponent(b) < 255
}

/// The absolute value of a finite pattern, in units of `2^-149`.
pub open spec fn scaled_magnitude(b: u32) -> nat {
    if biased_exponent(b) == 0 {
        fraction(b)
    } else {
        (fraction(b) + pow2(23)) * pow2((biased_exponent(b) - 1) as nat)
    }
}

/// The value of a finite pattern, in units of `2^-149`.
pub open spec fn scaled_value(b: u32) -> int {
    if sign_negative(b) {
        -scaled_magnitude(b)
    } else {
        scaled_magnitude(b) as int
    }
}

/// `a < b` on the values that two patterns stand for: false wherever a NaN
/// takes part, negative infinity below every other value, positive infinity
/// above, and finite values ordered by their real value (so `-0 < +0` is false).
pub open spec fn float_less(a: u32, b: u32) -> bool {
    if is_nan(a) || is_nan(b) {
        false
    } else if is_infinite(a) && is_infinite(b) {
        sign_negative(a) && !sign_negative(b)
    } else if is_infinite(a) {
        sign_negative(a)
    } else if is_infinite(b) {
        !sign_negative(b)
    } else {
        scaled_value(a) < scaled_value(b)
    }
}

proof fn lemma_fields(b: u32)
    ensures
        magnitude_bits(b) == biased_exponent(b) * pow2(23) + fraction(b),
        fraction(b) < pow2(23),
        biased_exponent(b) < 256,
        pow2(23) == 0x80_0000,
        sign_negative(b) ==> magnitude_bits(b) == b - SIGN_BIT,
        !sign_negative(b) ==> magnitude_bits(b) == b,
{
    vstd::arithmetic::power2::lemma2_to64();
}

/// A zero magnitude pattern is the only one whose value is zero.
proof fn lemma_zero_magnitude(b: u32)
    ensures
        (scaled_magnitude(b) == 0) == (magnitude_bits(b) == 0),
{
    lemma_fields(b);
    if biased_exponent(b) != 0 {
        lemma_pow2_pos((biased_exponent(b) - 1) as nat);
        assert((fraction(b) + pow2(23)) * pow2((biased_exponent(b) - 1) as nat) >= 1)
            by (nonlinear_arith)
            requires
                fraction(b) + pow2(23) >= 1,
                pow2((biased_exponent(b) - 1) as nat) >= 1,
        ;
    }
}

/// Among patterns that are not NaN, a larger magnitude pattern has a larger
/// magnitude value.
proof fn lemma_magnitude_monotonic(a: u32, b: u32)
    requires
        magnitude_bits(a) < magnitude_bits(b),
        is_finite(a),
        is_finite(b),
    ensures
        scaled_magnitude(a) < scaled_magnitude(b),
{
    lemma_fields(a);
    lemma_fields(b);
    let ea = biased_exponent(a);
    let eb = biased_exponent(b);
    let fa = fraction(a);
    let fb = fraction(b);
    let p = pow2(23);
    if ea == eb {
        assert(fa < fb) by (nonlinear_arith)
            requires
                ea * p + fa < eb * p + fb,
                ea == eb,
        ;
        if ea != 0 {
            let s = pow2((ea - 1) as nat);
            lemma_pow2_pos((ea - 1) as nat);
            assert((fa + p) * s < (fb + p) * s) by (nonlinear_arith)
                requires
                    fa < fb,
                    s > 0,
            ;
        }
    } else {
        if ea > eb {
            assert(ea * p >= eb * p + p) by (nonlinear_arith)
                requires
                    ea >= eb + 1,
            ;
        }
        let sb = pow2((eb - 1) as nat);
        lemma_pow2_pos((eb - 1) as nat);
        assert(p <= (fb + p) * sb) by (nonlinear_arith)
            requires
                sb >= 1,
        ;
        if ea != 0 {
            let sa = pow2((ea - 1) as nat);
            lemma_pow2_pos((ea - 1) as nat);
            lemma_pow2_unfold(ea);
            lemma_pow2_adds(23, ea);
            if ea < eb - 1 {
                lemma_pow2_strictly_increases(ea, (eb - 1) as nat);
            }
            // (fa + p) * sa < 2p * sa == p * pow2(ea) <= p * sb
            assert((fa + p) * sa < p * sb) by (nonlinear_arith)
                requires
                    fa < p,
                    sa > 0,
                    2 * sa <= sb,
            ;
            assert(p * sb <= (fb + p) * sb) by (nonlinear_arith)
                requires
                    sb >= 1,
            ;
        }
    }
}

/// `a < b` on two single-precision values given as bit patterns, with the
/// semantics of IEEE-754 (and of Rust's `<` on `f32`).
pub fn float_bits_less(a: u32, b: u32) -> (r: bool)
    ensures
        r == float_less(a, b),
{
    proof {
        lemma_fields(a);
        lemma_fields(b);
    }
    let a_negative = a >= SIGN_BIT;
    let b_negative = b >= SIGN_BIT;
    let a_magnitude: u32 = if a_negative { a - SIGN_BIT } else { a };
    let b_magnitude: u32 = if b_negative { b - SIGN_BIT } else { b };
    if a_magnitude > POSITIVE_INFINITY_BITS || b_magnitude > POSITIVE_INFINITY_BITS {
        return false;
    }
    if a_magnitude == 0 && b_magnitude == 0 {
        return false;
    }
    proof {
        if is_finite(a) && is_finite(b) {
            lemma_zero_magnitude(a);
            lemma_zero_magnitude(b);
            if a_magnitude < b_magnitude {
                lemma_magnitude_monotonic(a, b);
            } else if b_magnitude < a_magnitude {
                lemma_magnitude_monotonic(b, a);
            }
        }
    }
    if a_negative && b_negative {
        a_magnitude > b_magnitude
    } else if a_negative {
        true
    } else if b_negative {
        false
    } else {
        a_magnitude < b_magnitude
    }
}

} // verus!
