//! Scalar arithmetic for the solver.
//!
//! Every pressure, velocity and physical parameter is an IEEE 754 binary64
//! value carried as its `u64` bit pattern, so that the whole solver can be
//! verified while the rounding behaviour of the hardware format is kept
//! bit for bit.  The four rounding operations and the ordering test are
//! performed by `rustc_apfloat`, a software implementation of IEEE 754
//! binary64 whose results are a function of the operand bit patterns alone;
//! their results are named by uninterpreted spec functions.  Negation and
//! absolute value are sign-bit operations and are implemented and verified
//! here directly.

use vstd::prelude::*;

use rustc_apfloat::Float;
use rustc_apfloat::ieee::Double;

verus! {

/// Bit pattern of the binary64 value zero.
pub const ZERO_BITS: u64 = 0;

/// Bit pattern of the binary64 value one.
pub const ONE_BITS: u64 = 0x3FF0_0000_0000_0000;

/// Bit pattern of the binary64 value two.
pub const TWO_BITS: u64 = 0x4000_0000_0000_0000;

/// Bit pattern of the binary64 value four.
pub const FOUR_BITS: u64 = 0x4010_0000_0000_0000;

/// The sign bit of a binary64 value.
pub const SIGN_BIT: u64 = 0x8000_0000_0000_0000;

/// The binary64 sum of the values with bit patterns `a` and `b`, rounded to
/// nearest, ties to even, as a bit pattern.
pub uninterp spec fn add_bits(a: u64, b: u64) -> u64;

/// The binary64 difference of the values with bit patterns `a` and `b`.
pub uninterp spec fn sub_bits(a: u64, b: u64) -> u64;

/// The binary64 product of the values with bit patterns `a` and `b`.
pub uninterp spec fn mul_bits(a: u64, b: u64) -> u64;

/// The binary64 quotient of the values with bit patterns `a` and `b`.
pub uninterp spec fn div_bits(a: u64, b: u64) -> u64;

/// Whether the binary64 value with bit pattern `a` compares strictly below
/// the one with bit pattern `b` (false whenever either is a NaN).
pub uninterp spec fn lt_bits(a: u64, b: u64) -> bool;

/// The binary64 value nearest to the unsigned integer `n`, as a bit pattern.
pub uninterp spec fn of_int_bits(n: u64) -> u64;

/// Negating a binary64 value flips its sign bit and nothing else.
pub open spec fn neg_bits(a: u64) -> u64 {
    a ^ SIGN_BIT
}

/// The absolute value of a binary64 value clears its sign bit and nothing
/// else.
pub open spec fn abs_bits(a: u64) -> u64 {
    a & !SIGN_BIT
}

/// The binary64 square of the value with bit pattern `a`.
pub open spec fn square_bits(a: u64) -> u64 {
    mul_bits(a, a)
}

/// Relies on `rustc_apfloat::ieee::Double`'s addition: correctly rounded
/// IEEE 754 binary64 addition (round to nearest, ties to even), a function
/// of the operand bit patterns alone.
#[verifier::external_body]
pub fn real_add(a: u64, b: u64) -> (r: u64)
    ensures
        r == add_bits(a, b),
{
    (Double::from_bits(a as u128) + Double::from_bits(b as u128)).value.to_bits() as u64
}

/// Relies on `rustc_apfloat::ieee::Double`'s subtraction: correctly rounded
/// IEEE 754 binary64 subtraction, a function of the operand bit patterns
/// alone.
#[verifier::external_body]
pub fn real_sub(a: u64, b: u64) -> (r: u64)
    ensures
        r == sub_bits(a, b),
{
    (Double::from_bits(a as u128) - Double::from_bits(b as u128)).value.to_bits() as u64
}

/// Relies on `rustc_apfloat::ieee::Double`'s multiplication: correctly
/// rounded IEEE 754 binary64 multiplication, a function of the operand bit
/// patterns alone.
#[verifier::external_body]
pub fn real_mul(a: u64, b: u64) -> (r: u64)
    ensures
        r == mul_bits(a, b),
{
    (Double::from_bits(a as u128) * Double::from_bits(b as u128)).value.to_bits() as u64
}

/// Relies on `rustc_apfloat::ieee::Double`'s division: correctly rounded
/// IEEE 754 binary64 division, a function of the operand bit patterns alone
/// (division by zero yields an infinity, never a panic).
#[verifier::external_body]
pub fn real_div(a: u64, b: u64) -> (r: u64)
    ensures
        r == div_bits(a, b),
{
    (Double::from_bits(a as u128) / Double::from_bits(b as u128)).value.to_bits() as u64
}

/// Relies on `rustc_apfloat::ieee::Double`'s `PartialOrd`: the IEEE 754
/// ordering, in which a NaN compares below nothing.
#[verifier::external_body]
pub fn real_lt(a: u64, b: u64) -> (r: bool)
    ensures
        r == lt_bits(a, b),
{
    Double::from_bits(a as u128) < Double::from_bits(b as u128)
}

/// Relies on `rustc_apfloat::ieee::Double::from_u128`: conversion of an
/// unsigned integer to the nearest binary64 value (ties to even).
#[verifier::external_body]
pub fn real_of_count(n: usize) -> (r: u64)
    ensures
        r == of_int_bits(n as u64),
{
    Double::from_u128(n as u128).value.to_bits() as u64
}

/// Negation of a binary64 value: the sign bit flips.
pub fn real_neg(a: u64) -> (r: u64)
    ensures
        r == neg_bits(a),
{
    a ^ SIGN_BIT
}

/// Absolute value of a binary64 value: the sign bit clears.
pub fn real_abs(a: u64) -> (r: u64)
    ensures
        r == abs_bits(a),
{
    a & !SIGN_BIT
}

} // verus!
