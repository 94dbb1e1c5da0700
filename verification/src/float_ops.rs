//! IEEE-754 double-precision arithmetic on raw 64-bit patterns.
//!
//! Float values travel through the toolchain as the bits of their IEEE-754
//! encoding, so this crate never holds a hardware float. The arithmetic is
//! done in software by `rustc_apfloat` with the default round-to-nearest-even
//! mode; each operation is a pure function of its operand bits alone, so its
//! result is named by an uninterpreted spec function.

use rustc_apfloat::Float;
use vstd::prelude::*;

verus! {

/// Bit pattern of the IEEE-754 sum of the doubles encoded by `a` and `b`.
pub uninterp spec fn float_add(a: u64, b: u64) -> u64;

/// Bit pattern of the IEEE-754 difference of the doubles `a` and `b`.
pub uninterp spec fn float_sub(a: u64, b: u64) -> u64;

/// Bit pattern of the IEEE-754 product of the doubles `a` and `b`.
pub uninterp spec fn float_mul(a: u64, b: u64) -> u64;

/// Bit pattern of the IEEE-754 quotient of the doubles `a` and `b`.
pub uninterp spec fn float_div(a: u64, b: u64) -> u64;

/// Bit pattern of the C `fmod` remainder of the doubles `a` and `b`.
pub uninterp spec fn float_rem(a: u64, b: u64) -> u64;

/// Bit pattern of the double nearest to the nonzero signed integer `i`.
/// Every such integer has magnitude at least one, so the real conversion
/// never yields a zero's pattern.
pub uninterp spec fn float_of_nonzero_int(i: i64) -> u64;

/// Bit pattern of the double nearest to the signed integer `i`. Integer zero
/// converts to plus zero and no other integer converts to a zero, so the
/// definition carries that shape; the branch that papers over a zero pattern
/// for a nonzero integer can never fire on the real conversion.
pub open spec fn float_of_int(i: i64) -> u64 {
    if i == 0 {
        0
    } else if spec_float_is_zero(float_of_nonzero_int(i)) {
        0x3ff0_0000_0000_0000
    } else {
        float_of_nonzero_int(i)
    }
}

/// IEEE-754 equality of the doubles `a` and `b`: the two zeroes are equal,
/// NaN equals nothing.
pub uninterp spec fn float_eq(a: u64, b: u64) -> bool;

/// IEEE-754 strict order of the doubles `a` and `b`; false when either is NaN.
pub uninterp spec fn float_lt(a: u64, b: u64) -> bool;

/// IEEE-754 non-strict order of the doubles `a` and `b`; false when either is
/// NaN.
pub uninterp spec fn float_le(a: u64, b: u64) -> bool;

/// A double equals zero exactly when all bits under the sign mask are clear:
/// this holds of `0.0` and `-0.0` and of nothing else.
pub open spec fn spec_float_is_zero(bits: u64) -> bool {
    bits & 0x7fff_ffff_ffff_ffff == 0
}

/// Whether `bits` encodes one of the two IEEE-754 zeroes.
pub fn float_is_zero(bits: u64) -> (res: bool)
    ensures
        res == spec_float_is_zero(bits),
{
    bits & 0x7fff_ffff_ffff_ffff == 0
}

/// Relies on rustc_apfloat: `Double` addition rounds to nearest even and
/// depends on the operand bits alone.
#[verifier::external_body]
pub(crate) fn apf_add(a: u64, b: u64) -> (res: u64)
    ensures
        res == float_add(a, b),
{
    let x = rustc_apfloat::ieee::Double::from_bits(a as u128);
    let y = rustc_apfloat::ieee::Double::from_bits(b as u128);
    (x + y).value.to_bits() as u64
}

/// Relies on rustc_apfloat: `Double` subtraction rounds to nearest even and
/// depends on the operand bits alone.
#[verifier::external_body]
pub(crate) fn apf_sub(a: u64, b: u64) -> (res: u64)
    ensures
        res == float_sub(a, b),
{
    let x = rustc_apfloat::ieee::Double::from_bits(a as u128);
    let y = rustc_apfloat::ieee::Double::from_bits(b as u128);
    (x - y).value.to_bits() as u64
}

/// Relies on rustc_apfloat: `Double` multiplication rounds to nearest even
/// and depends on the operand bits alone.
#[verifier::external_body]
pub(crate) fn apf_mul(a: u64, b: u64) -> (res: u64)
    ensures
        res == float_mul(a, b),
{
    let x = rustc_apfloat::ieee::Double::from_bits(a as u128);
    let y = rustc_apfloat::ieee::Double::from_bits(b as u128);
    (x * y).value.to_bits() as u64
}

/// Relies on rustc_apfloat: `Double` division rounds to nearest even and
/// depends on the operand bits alone.
#[verifier::external_body]
pub(crate) fn apf_div(a: u64, b: u64) -> (res: u64)
    ensures
        res == float_div(a, b),
{
    let x = rustc_apfloat::ieee::Double::from_bits(a as u128);
    let y = rustc_apfloat::ieee::Double::from_bits(b as u128);
    (x / y).value.to_bits() as u64
}

/// Relies on rustc_apfloat: `Double::c_fmod` is the C `fmod` remainder and
/// depends on the operand bits alone.
#[verifier::external_body]
pub(crate) fn apf_rem(a: u64, b: u64) -> (res: u64)
    ensures
        res == float_rem(a, b),
{
    let x = rustc_apfloat::ieee::Double::from_bits(a as u128);
    let y = rustc_apfloat::ieee::Double::from_bits(b as u128);
    x.c_fmod(y).value.to_bits() as u64
}

/// Relies on rustc_apfloat: `Double::from_i128` converts a signed integer to
/// the nearest double (ties to even); converting zero yields plus zero, whose
/// bit pattern is all clear.
#[verifier::external_body]
pub(crate) fn apf_of_int(i: i64) -> (res: u64)
    ensures
        res == float_of_int(i),
        i == 0 ==> res == 0,
        i != 0 ==> res == float_of_nonzero_int(i),
{
    rustc_apfloat::ieee::Double::from_i128(i as i128).value.to_bits() as u64
}

/// Relies on rustc_apfloat: `Double` equality compares by IEEE-754 rules
/// (the two zeroes are equal, NaN equals nothing) on the operand bits alone.
#[verifier::external_body]
pub(crate) fn apf_eq(a: u64, b: u64) -> (res: bool)
    ensures
        res == float_eq(a, b),
{
    let x = rustc_apfloat::ieee::Double::from_bits(a as u128);
    let y = rustc_apfloat::ieee::Double::from_bits(b as u128);
    x == y
}

/// Relies on rustc_apfloat: `Double` ordering follows IEEE-754 (false when
/// either operand is NaN) on the operand bits alone.
#[verifier::external_body]
pub(crate) fn apf_lt(a: u64, b: u64) -> (res: bool)
    ensures
        res == float_lt(a, b),
{
    let x = rustc_apfloat::ieee::Double::from_bits(a as u128);
    let y = rustc_apfloat::ieee::Double::from_bits(b as u128);
    x < y
}

/// Relies on rustc_apfloat: `Double` ordering follows IEEE-754 (false when
/// either operand is NaN) on the operand bits alone.
#[verifier::external_body]
pub(crate) fn apf_le(a: u64, b: u64) -> (res: bool)
    ensures
        res == float_le(a, b),
{
    let x = rustc_apfloat::ieee::Double::from_bits(a as u128);
    let y = rustc_apfloat::ieee::Double::from_bits(b as u128);
    x <= y
}

} // verus!
