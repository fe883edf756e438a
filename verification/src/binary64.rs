//! IEEE 754 double-precision numbers read through their 64-bit patterns.
//!
//! Every number that the estimator decides on reaches it as the pattern of a
//! double: one sign bit, eleven exponent bits, fifty-two fraction bits. This
//! module gives such a pattern its mathematical meaning and the tests on it
//! that the estimator needs, computed on the integer alone.
//!
//! The meaning of a pattern that is not a NaN is an integer, its
//! [`scaled_value`]: the number it encodes, multiplied by `2^1074`. The
//! smallest subnormal is `2^-1074`, so every finite double is a whole number
//! of these units. An infinity is given the magnitude that the encoding
//! formula yields for it, `2^2098` units, which lies beyond every finite one.
use vstd::arithmetic::mul::*;
use vstd::arithmetic::power2::*;
use vstd::prelude::*;

verus! {

/// The pattern with only the sign bit set: negative zero.
pub const SIGN_BIT: u64 = 0x8000_0000_0000_0000;

/// The weight of the lowest exponent bit, `2^52`; in a normal number, the
/// implicit leading bit of the significand.
pub const HIDDEN_BIT: u64 = 0x0010_0000_0000_0000;

/// Positive infinity.
pub const INFINITY: u64 = 0x7FF0_0000_0000_0000;

/// The number one.
pub const ONE: u64 = 0x3FF0_0000_0000_0000;

/// The machine epsilon `2^-52`: the gap between one and the next double.
pub const EPSILON: u64 = 0x3CB0_0000_0000_0000;

/// Whether the sign bit is set.
pub open spec fn is_negative(bits: u64) -> bool {
    bits >= SIGN_BIT
}

/// The pattern with its sign bit cleared.
pub open spec fn magnitude(bits: u64) -> u64 {
    if bits >= SIGN_BIT {
        (bits - SIGN_BIT) as u64
    } else {
        bits
    }
}

/// The biased exponent, from 0 to 2047.
pub open spec fn exponent_field(bits: u64) -> nat {
    (magnitude(bits) / HIDDEN_BIT) as nat
}

/// The fifty-two fraction bits.
pub open spec fn fraction_field(bits: u64) -> nat {
    (magnitude(bits) % HIDDEN_BIT) as nat
}

/// The pattern is no number: all exponent bits set and a fraction that is
/// not zero.
pub open spec fn spec_is_nan(bits: u64) -> bool {
    magnitude(bits) > INFINITY
}

/// The pattern is a number other than an infinity.
pub open spec fn spec_is_finite(bits: u64) -> bool {
    magnitude(bits) < INFINITY
}

/// The pattern is one of the two zeros.
pub open spec fn spec_is_zero(bits: u64) -> bool {
    magnitude(bits) == 0
}

/// The significand in units of the last fraction bit: the fraction alone for
/// a subnormal, the fraction under the hidden bit otherwise.
pub open spec fn significand(bits: u64) -> nat {
    if exponent_field(bits) == 0 {
        fraction_field(bits)
    } else {
        HIDDEN_BIT as nat + fraction_field(bits)
    }
}

/// The power of two by which the significand is multiplied to give the
/// magnitude in units of `2^-1074`.
pub open spec fn binade(bits: u64) -> nat {
    if exponent_field(bits) == 0 {
        0
    } else {
        (exponent_field(bits) - 1) as nat
    }
}

/// The absolute value of the encoded number, in units of `2^-1074`.
pub open spec fn scaled_magnitude(bits: u64) -> nat {
    significand(bits) * pow2(binade(bits))
}

/// The encoded number, in units of `2^-1074`. Both zeros give 0.
pub open spec fn scaled_value(bits: u64) -> int {
    if is_negative(bits) {
        -(scaled_magnitude(bits) as int)
    } else {
        scaled_magnitude(bits) as int
    }
}

/// `a < b` as IEEE 754 orders doubles: false when either is a NaN, else the
/// order of the encoded numbers.
pub open spec fn spec_less_than(a: u64, b: u64) -> bool {
    !spec_is_nan(a) && !spec_is_nan(b) && scaled_value(a) < scaled_value(b)
}

/// `a == b` as IEEE 754 compares doubles: false when either is a NaN, else
/// equality of the encoded numbers, so the two zeros are equal.
pub open spec fn spec_equal_to(a: u64, b: u64) -> bool {
    !spec_is_nan(a) && !spec_is_nan(b) && scaled_value(a) == scaled_value(b)
}

/// `|x| < 2^-52`: the number is closer to zero than the machine epsilon.
/// A NaN is not.
pub open spec fn spec_is_negligible(bits: u64) -> bool {
    !spec_is_nan(bits) && scaled_magnitude(bits) < pow2(1022)
}

/// Where a number that is not a NaN stands among all of them, as an unsigned
/// integer: negative numbers below `SIGN_BIT` in falling magnitude, both
/// zeros at `SIGN_BIT`, positive numbers above it.
pub open spec fn spec_rank(bits: u64) -> int {
    if is_negative(bits) {
        SIGN_BIT - magnitude(bits)
    } else {
        SIGN_BIT + magnitude(bits)
    }
}

/// A larger magnitude pattern encodes a larger magnitude, from zero through
/// the subnormal and normal numbers up to infinity.
pub proof fn lemma_magnitude_increases(x: u64, y: u64)
    requires
        x < y <= INFINITY,
    ensures
        scaled_magnitude(x) < scaled_magnitude(y),
{
    let h = HIDDEN_BIT as int;
    let ex = exponent_field(x);
    let ey = exponent_field(y);
    let fx = fraction_field(x);
    let fy = fraction_field(y);
    assert(magnitude(x) == x && magnitude(y) == y);
    assert(x == ex * h + fx && y == ey * h + fy && fx < h && fy < h);
    lemma_pow2_pos(binade(x));
    lemma_pow2_pos(binade(y));
    if ex == ey {
        assert(significand(x) < significand(y));
        lemma_mul_strict_inequality(
            significand(x) as int,
            significand(y) as int,
            pow2(binade(y)) as int,
        );
    } else {
        assert(ex < ey);
        // The whole binade of y lies at or above 2^52 units of its scale.
        assert(h * pow2(binade(y)) <= significand(y) * pow2(binade(y))) by {
            lemma_mul_inequality(h, significand(y) as int, pow2(binade(y)) as int);
        }
        if ex == 0 {
            assert(scaled_magnitude(x) == fx * pow2(0));
            assert(pow2(0) == 1) by {
                lemma2_to64();
            }
            assert(fx * 1 == fx);
            assert(h * 1 <= h * pow2(binade(y))) by {
                lemma_mul_inequality(1, pow2(binade(y)) as int, h);
                lemma_mul_is_commutative(h, pow2(binade(y)) as int);
            }
        } else {
            // The binade of x ends where the next one begins.
            assert(significand(x) < 2 * h);
            assert(significand(x) * pow2(binade(x)) < (2 * h) * pow2(binade(x))) by {
                lemma_mul_strict_inequality(
                    significand(x) as int,
                    2 * h,
                    pow2(binade(x)) as int,
                );
            }
            assert((2 * h) * pow2(binade(x)) == h * pow2(binade(x) + 1)) by {
                lemma_pow2_unfold(binade(x) + 1);
                lemma_mul_is_associative(h, 2, pow2(binade(x)) as int);
            }
            assert(pow2(binade(x) + 1) <= pow2(binade(y))) by {
                if binade(x) + 1 < binade(y) {
                    lemma_pow2_strictly_increases(binade(x) + 1, binade(y));
                }
            }
            assert(h * pow2(binade(x) + 1) <= h * pow2(binade(y))) by {
                lemma_mul_inequality(
                    pow2(binade(x) + 1) as int,
                    pow2(binade(y)) as int,
                    h,
                );
                lemma_mul_is_commutative(h, pow2(binade(x) + 1) as int);
                lemma_mul_is_commutative(h, pow2(binade(y)) as int);
            }
        }
    }
}

/// The order of two magnitude patterns is the order of the magnitudes they
/// encode, and only equal patterns encode equal magnitudes.
pub proof fn lemma_magnitude_order(a: u64, b: u64)
    requires
        !spec_is_nan(a),
        !spec_is_nan(b),
    ensures
        magnitude(a) < magnitude(b) <==> scaled_magnitude(a) < scaled_magnitude(b),
        magnitude(a) == magnitude(b) <==> scaled_magnitude(a) == scaled_magnitude(b),
{
    let x = magnitude(a);
    let y = magnitude(b);
    assert(scaled_magnitude(x) == scaled_magnitude(a));
    assert(scaled_magnitude(y) == scaled_magnitude(b));
    if x < y {
        lemma_magnitude_increases(x, y);
    } else if y < x {
        lemma_magnitude_increases(y, x);
    }
}

/// Only the two zeros encode the number zero.
pub proof fn lemma_zero_magnitude(bits: u64)
    requires
        !spec_is_nan(bits),
    ensures
        spec_is_zero(bits) <==> scaled_value(bits) == 0,
{
    lemma_magnitude_order(0, bits);
    assert(scaled_magnitude(0) == 0) by {
        assert(significand(0) == 0);
        lemma_mul_basics(pow2(binade(0)) as int);
    }
}

/// The rank orders the numbers as their values do.
pub proof fn lemma_rank_order(a: u64, b: u64)
    requires
        !spec_is_nan(a),
        !spec_is_nan(b),
    ensures
        spec_rank(a) < spec_rank(b) <==> scaled_value(a) < scaled_value(b),
        spec_rank(a) == spec_rank(b) <==> scaled_value(a) == scaled_value(b),
{
    lemma_magnitude_order(a, b);
    lemma_magnitude_order(b, a);
    lemma_zero_magnitude(a);
    lemma_zero_magnitude(b);
}

/// What the named patterns encode: one is `2^1074` units of `2^-1074`, the
/// machine epsilon `2^1022` of them, and infinity stands at `2^2098`.
pub proof fn lemma_named_values()
    ensures
        scaled_value(ONE) == pow2(1074),
        scaled_value(EPSILON) == pow2(1022),
        scaled_value(INFINITY) == pow2(2098),
        scaled_value(0) == 0,
        scaled_value(SIGN_BIT) == 0,
{
    assert(pow2(52) == HIDDEN_BIT) by {
        lemma2_to64_rest();
    }
    assert(exponent_field(ONE) == 1023 && fraction_field(ONE) == 0);
    assert(exponent_field(EPSILON) == 971 && fraction_field(EPSILON) == 0);
    assert(exponent_field(INFINITY) == 2047 && fraction_field(INFINITY) == 0);
    lemma_pow2_adds(52, 1022);
    lemma_pow2_adds(52, 970);
    lemma_pow2_adds(52, 2046);
    lemma_zero_magnitude(0);
    lemma_zero_magnitude(SIGN_BIT);
}

/// Being negligible is a test on the magnitude pattern alone.
pub proof fn lemma_negligible_pattern(bits: u64)
    ensures
        spec_is_negligible(bits) <==> magnitude(bits) < EPSILON,
{
    lemma_named_values();
    if !spec_is_nan(bits) {
        lemma_magnitude_order(bits, EPSILON);
    }
}

/// `<` on doubles is a strict order: nothing is below itself, and it is
/// transitive. Among numbers, two are either equal or one is below the other.
pub proof fn lemma_less_than_is_strict_order(a: u64, b: u64, c: u64)
    ensures
        !spec_less_than(a, a),
        spec_less_than(a, b) ==> !spec_less_than(b, a) && !spec_equal_to(a, b),
        spec_less_than(a, b) && spec_less_than(b, c) ==> spec_less_than(a, c),
        !spec_is_nan(a) && !spec_is_nan(b) ==> spec_less_than(a, b) || spec_equal_to(a, b)
            || spec_less_than(b, a),
{
}

/// Two numbers are equal exactly when their patterns are the same or both
/// are zeros. A NaN equals nothing, itself included.
pub proof fn lemma_equal_patterns(a: u64, b: u64)
    ensures
        spec_equal_to(a, b) <==> !spec_is_nan(a) && !spec_is_nan(b) && (a == b || (spec_is_zero(a)
            && spec_is_zero(b))),
{
    if !spec_is_nan(a) && !spec_is_nan(b) {
        lemma_rank_order(a, b);
    }
}

/// Every finite number lies strictly between the two infinities, and no
/// number at all lies above positive infinity.
pub proof fn lemma_infinity_bounds(bits: u64)
    ensures
        spec_is_finite(bits) ==> spec_less_than(bits, INFINITY) && spec_less_than(
            (SIGN_BIT + INFINITY) as u64,
            bits,
        ),
        !spec_less_than(INFINITY, bits),
{
    if !spec_is_nan(bits) {
        lemma_rank_order(bits, INFINITY);
        lemma_rank_order(INFINITY, bits);
        lemma_rank_order((SIGN_BIT + INFINITY) as u64, bits);
    }
}

/// The pattern of `|x|`: the sign bit cleared, everything else kept.
#[verifier::when_used_as_spec(magnitude)]
pub fn abs(bits: u64) -> (r: u64)
    ensures
        r == magnitude(bits),
{
    if bits >= SIGN_BIT {
        bits - SIGN_BIT
    } else {
        bits
    }
}

/// Whether the pattern is a NaN.
#[verifier::when_used_as_spec(spec_is_nan)]
pub fn is_nan(bits: u64) -> (r: bool)
    ensures
        r == spec_is_nan(bits),
{
    abs(bits) > INFINITY
}

/// Whether the pattern is a number other than an infinity.
#[verifier::when_used_as_spec(spec_is_finite)]
pub fn is_finite(bits: u64) -> (r: bool)
    ensures
        r == spec_is_finite(bits),
{
    abs(bits) < INFINITY
}

/// Whether the pattern is one of the two zeros.
#[verifier::when_used_as_spec(spec_is_zero)]
pub fn is_zero(bits: u64) -> (r: bool)
    ensures
        r == spec_is_zero(bits),
{
    abs(bits) == 0
}

/// Whether `|x| < 2^-52`.
#[verifier::when_used_as_spec(spec_is_negligible)]
pub fn is_negligible(bits: u64) -> (r: bool)
    ensures
        r == spec_is_negligible(bits),
{
    proof {
        lemma_negligible_pattern(bits);
    }
    abs(bits) < EPSILON
}

/// The rank of a number among all numbers.
fn rank(bits: u64) -> (r: u64)
    requires
        !spec_is_nan(bits),
    ensures
        r == spec_rank(bits),
{
    if bits >= SIGN_BIT {
        SIGN_BIT - (bits - SIGN_BIT)
    } else {
        SIGN_BIT + bits
    }
}

/// `a < b` on doubles.
#[verifier::when_used_as_spec(spec_less_than)]
pub fn less_than(a: u64, b: u64) -> (r: bool)
    ensures
        r == spec_less_than(a, b),
{
    if is_nan(a) || is_nan(b) {
        false
    } else {
        proof {
            lemma_rank_order(a, b);
        }
        rank(a) < rank(b)
    }
}

/// `a == b` on doubles.
#[verifier::when_used_as_spec(spec_equal_to)]
pub fn equal_to(a: u64, b: u64) -> (r: bool)
    ensures
        r == spec_equal_to(a, b),
{
    if is_nan(a) || is_nan(b) {
        false
    } else {
        proof {
            lemma_rank_order(a, b);
        }
        rank(a) == rank(b)
    }
}

} // verus!
