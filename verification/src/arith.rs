//! Arithmetic on stack values: 64-bit two's complement.

use vstd::arithmetic::div_mod::{
    lemma_div_basics, lemma_div_nonincreasing, lemma_div_pos_is_pos, lemma_mod_bound, lemma_small_mod,
};
use vstd::prelude::*;

verus! {

/// The 64-bit two's complement value that an integer wraps around to.
pub open spec fn wrap(value: int) -> i64 {
    let low = value % 0x1_0000_0000_0000_0000;
    if low > i64::MAX {
        (low - 0x1_0000_0000_0000_0000) as i64
    } else {
        low as i64
    }
}

/// The magnitude of an integer.
pub open spec fn magnitude(value: int) -> int {
    if value < 0 {
        -value
    } else {
        value
    }
}

/// The quotient of `dividend` by `divisor`, rounded towards zero. Division by
/// zero is defined to give 0.
pub open spec fn quotient(dividend: int, divisor: int) -> int {
    if divisor == 0 {
        0
    } else if (dividend < 0) == (divisor < 0) {
        magnitude(dividend) / magnitude(divisor)
    } else {
        -(magnitude(dividend) / magnitude(divisor))
    }
}

/// What is left of `dividend` after taking out `divisor` a whole number of
/// times, rounding towards zero: it has the sign of the dividend. The
/// remainder of a division by zero is defined to be 0.
pub open spec fn remainder(dividend: int, divisor: int) -> int {
    if divisor == 0 {
        0
    } else if dividend < 0 {
        -(magnitude(dividend) % magnitude(divisor))
    } else {
        magnitude(dividend) % magnitude(divisor)
    }
}

/// The sum of two stack values, wrapped to 64 bits.
pub fn sum(b: i64, a: i64) -> (r: i64)
    ensures
        r == wrap(b + a),
{
    b.wrapping_add(a)
}

/// The difference of two stack values, wrapped to 64 bits.
pub fn difference(b: i64, a: i64) -> (r: i64)
    ensures
        r == wrap(b - a),
{
    b.wrapping_sub(a)
}

/// The product of two stack values, wrapped to 64 bits.
pub fn product(b: i64, a: i64) -> (r: i64)
    ensures
        r == wrap(b * a),
{
    b.wrapping_mul(a)
}

/// A quotient rounded towards zero lies between zero and the dividend.
proof fn lemma_quotient_bounded(dividend: int, divisor: int)
    requires
        divisor != 0,
    ensures
        0 <= magnitude(dividend) / magnitude(divisor) <= magnitude(dividend),
        0 <= magnitude(dividend) % magnitude(divisor) < magnitude(divisor),
        dividend == 0 ==> quotient(dividend, divisor) == 0 && remainder(dividend, divisor) == 0,
{
    lemma_div_pos_is_pos(magnitude(dividend), magnitude(divisor));
    lemma_div_nonincreasing(magnitude(dividend), magnitude(divisor));
    lemma_mod_bound(magnitude(dividend), magnitude(divisor));
    if dividend == 0 {
        lemma_div_basics(magnitude(divisor));
        lemma_small_mod(0, magnitude(divisor) as nat);
    }
}

/// The quotient of two stack values, rounded towards zero and wrapped to 64
/// bits; 0 when the divisor is 0.
pub fn divided(b: i64, a: i64) -> (r: i64)
    ensures
        r == wrap(quotient(b as int, a as int)),
{
    proof {
        if a != 0 {
            lemma_quotient_bounded(b as int, a as int);
        }
    }
    match b.checked_div(a) {
        Some(q) => q,
        None => if a == 0 {
            0
        } else {
            i64::MIN
        },
    }
}

/// The remainder of two stack values, with the sign of the dividend; 0 when
/// the divisor is 0.
pub fn remaining(b: i64, a: i64) -> (r: i64)
    ensures
        r == remainder(b as int, a as int),
{
    proof {
        if a != 0 {
            lemma_quotient_bounded(b as int, a as int);
        }
    }
    match b.checked_rem(a) {
        Some(r) => r,
        None => 0,
    }
}

} // verus!
