//! Rounding of quotients of whole numbers.

use vstd::prelude::*;

verus! {

/// A quotient rounded to the nearest integer, halves away from zero.
pub open spec fn rounded_quotient(numerator: int, denominator: int) -> int
    recommends
        denominator > 0,
{
    if numerator >= 0 {
        (2 * numerator + denominator) / (2 * denominator)
    } else {
        -((2 * (-numerator) + denominator) / (2 * denominator))
    }
}

/// The rounded quotient is a whole number nearest to the quotient: it is off by
/// no more than a half. Where two whole numbers are equally near, it is the one
/// further from zero.
pub proof fn lemma_rounded_quotient_is_nearest(numerator: int, denominator: int)
    requires
        denominator > 0,
    ensures
        ({
            let r = rounded_quotient(numerator, denominator);
            &&& -denominator <= 2 * (numerator - r * denominator) <= denominator
            &&& numerator >= 0 ==> 2 * (numerator - r * denominator) < denominator
            &&& numerator < 0 ==> -denominator < 2 * (numerator - r * denominator)
        }),
{
    let n = if numerator >= 0 {
        numerator
    } else {
        -numerator
    };
    let q = (2 * n + denominator) / (2 * denominator);
    assert(2 * denominator * q <= 2 * n + denominator < 2 * denominator * q + 2 * denominator)
        by (nonlinear_arith)
        requires
            q == (2 * n + denominator) / (2 * denominator),
            denominator > 0,
    ;
    assert(2 * denominator * q == 2 * (q * denominator)) by (nonlinear_arith);
    assert((-q) * denominator == -(q * denominator)) by (nonlinear_arith);
}

/// Rounds a quotient to the nearest integer, halves away from zero.
pub fn round_quotient(numerator: i128, denominator: i128) -> (r: i128)
    requires
        denominator > 0,
        -0x2000_0000_0000_0000_0000_0000_0000 <= numerator <= 0x2000_0000_0000_0000_0000_0000_0000,
        denominator <= 0x2000_0000_0000_0000_0000_0000_0000,
    ensures
        r == rounded_quotient(numerator as int, denominator as int),
{
    if numerator >= 0 {
        (2 * numerator + denominator) / (2 * denominator)
    } else {
        -((2 * (-numerator) + denominator) / (2 * denominator))
    }
}

} // verus!
