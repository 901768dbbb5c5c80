//! IEEE-754 binary64 values carried as their bit patterns.
//!
//! The library never computes on machine floating point directly: a
//! value is held as its 64-bit pattern and every arithmetic step goes
//! through a software implementation of the IEEE operations
//! (rustc_apfloat), whose results are named by uninterpreted spec
//! functions.  Each operation is a pure function of the bit patterns of
//! its arguments, so one name per operation is sound.

use vstd::prelude::*;

use rustc_apfloat::Float;

verus! {

/// An IEEE-754 binary64 value, stored as its bit pattern.
#[derive(Clone, Copy, Debug, PartialEq, Eq, Hash, Structural)]
pub struct Fp(pub u64);

/// The bit pattern of the binary64 value closest to zero: 0.0.
pub const FP_ZERO: u64 = 0;

/// The bit pattern of the binary64 value 1.0.
pub const FP_ONE: u64 = 0x3FF0000000000000;

/// The bit pattern of the binary64 value 2.0.
pub const FP_TWO: u64 = 0x4000000000000000;

/// The bit pattern of the binary64 value closest to the circle constant.
pub const FP_PI: u64 = 0x400921FB54442D18;

/// The bit pattern of the smallest increment above 1.0, the machine
/// epsilon of binary64; used to nudge shape boundaries inward.
pub const FP_EPSILON: u64 = 0x3CB0000000000000;

impl Fp {
    /// The value 0.0.
    pub fn zero() -> (r: Fp)
        ensures
            r.0 == FP_ZERO,
    {
        Fp(FP_ZERO)
    }

    /// The value 1.0.
    pub fn one() -> (r: Fp)
        ensures
            r.0 == FP_ONE,
    {
        Fp(FP_ONE)
    }
}

/// The bit pattern of the sum of the two values, rounded to nearest.
pub uninterp spec fn fp_add(a: u64, b: u64) -> u64;

/// Relies on rustc_apfloat's `Double` addition: IEEE binary64 addition,
/// round to nearest even, a pure function of the two bit patterns.
#[verifier::external_body]
pub fn add(a: Fp, b: Fp) -> (r: Fp)
    ensures
        r.0 == fp_add(a.0, b.0),
{
    let x = rustc_apfloat::ieee::Double::from_bits(a.0 as u128);
    let y = rustc_apfloat::ieee::Double::from_bits(b.0 as u128);
    Fp((x + y).value.to_bits() as u64)
}

/// The bit pattern of the difference of the two values, rounded to nearest.
pub uninterp spec fn fp_sub(a: u64, b: u64) -> u64;

/// Relies on rustc_apfloat's `Double` subtraction: IEEE binary64
/// subtraction, round to nearest even, a pure function of the bit patterns.
#[verifier::external_body]
pub fn sub(a: Fp, b: Fp) -> (r: Fp)
    ensures
        r.0 == fp_sub(a.0, b.0),
{
    let x = rustc_apfloat::ieee::Double::from_bits(a.0 as u128);
    let y = rustc_apfloat::ieee::Double::from_bits(b.0 as u128);
    Fp((x - y).value.to_bits() as u64)
}

/// The bit pattern of the product of the two values, rounded to nearest.
pub uninterp spec fn fp_mul(a: u64, b: u64) -> u64;

/// Relies on rustc_apfloat's `Double` multiplication: IEEE binary64
/// multiplication, round to nearest even, a pure function of the bit patterns.
#[verifier::external_body]
pub fn mul(a: Fp, b: Fp) -> (r: Fp)
    ensures
        r.0 == fp_mul(a.0, b.0),
{
    let x = rustc_apfloat::ieee::Double::from_bits(a.0 as u128);
    let y = rustc_apfloat::ieee::Double::from_bits(b.0 as u128);
    Fp((x * y).value.to_bits() as u64)
}

/// The bit pattern of the quotient of the two values, rounded to nearest.
pub uninterp spec fn fp_div(a: u64, b: u64) -> u64;

/// Relies on rustc_apfloat's `Double` division: IEEE binary64 division,
/// round to nearest even, a pure function of the two bit patterns.
#[verifier::external_body]
pub fn div(a: Fp, b: Fp) -> (r: Fp)
    ensures
        r.0 == fp_div(a.0, b.0),
{
    let x = rustc_apfloat::ieee::Double::from_bits(a.0 as u128);
    let y = rustc_apfloat::ieee::Double::from_bits(b.0 as u128);
    Fp((x / y).value.to_bits() as u64)
}

/// The IEEE comparison of the two values: `Some(-1)`, `Some(0)` or
/// `Some(1)` when the left value is below, equal to or above the right
/// one, `None` when either is a NaN.
pub uninterp spec fn fp_cmp(a: u64, b: u64) -> Option<i8>;

/// Relies on rustc_apfloat's `Double` ordering: the IEEE partial order,
/// in which a NaN compares to nothing and zeroes of both signs are equal.
#[verifier::external_body]
pub fn cmp(a: Fp, b: Fp) -> (r: Option<i8>)
    ensures
        r == fp_cmp(a.0, b.0),
{
    let x = rustc_apfloat::ieee::Double::from_bits(a.0 as u128);
    let y = rustc_apfloat::ieee::Double::from_bits(b.0 as u128);
    match x.partial_cmp(&y) {
        None => None,
        Some(core::cmp::Ordering::Less) => Some(-1),
        Some(core::cmp::Ordering::Equal) => Some(0),
        Some(core::cmp::Ordering::Greater) => Some(1),
    }
}

/// The bit pattern of the binary64 value nearest to the given integer.
pub uninterp spec fn fp_of_int(i: i64) -> u64;

/// Relies on rustc_apfloat's `Double::from_i128`: conversion of an
/// integer to the nearest binary64 value, a pure function of the integer.
#[verifier::external_body]
pub fn of_int(i: i64) -> (r: Fp)
    ensures
        r.0 == fp_of_int(i),
{
    Fp(rustc_apfloat::ieee::Double::from_i128(i as i128).value.to_bits() as u64)
}

/// The bit pattern of the binary64 value nearest to the given unsigned
/// integer.
pub uninterp spec fn fp_of_uint(u: u64) -> u64;

/// Relies on rustc_apfloat's `Double::from_u128`: conversion of an
/// unsigned integer to the nearest binary64 value, a pure function of it.
#[verifier::external_body]
pub fn of_uint(u: u64) -> (r: Fp)
    ensures
        r.0 == fp_of_uint(u),
{
    Fp(rustc_apfloat::ieee::Double::from_u128(u as u128).value.to_bits() as u64)
}

/// The bit pattern of the binary64 value nearest to the number the text
/// denotes, for text in the usual decimal notation.
pub uninterp spec fn fp_of_decimal(s: Seq<char>) -> u64;

/// Relies on rustc_apfloat's `Double::from_str_r`: correctly rounded
/// conversion of decimal text, a pure function of the text.  Returns
/// `None` where the text is not a number in the notation the crate accepts.
#[verifier::external_body]
pub fn of_decimal(s: &Vec<char>) -> (r: Option<Fp>)
    ensures
        r matches Some(f) ==> f.0 == fp_of_decimal(s@),
{
    let text: String = s.iter().collect();
    match rustc_apfloat::ieee::Double::from_str_r(&text, rustc_apfloat::Round::NearestTiesToEven) {
        Ok(v) => Some(Fp(v.value.to_bits() as u64)),
        Err(_) => None,
    }
}

/// True when the left value is strictly below the right one in the IEEE
/// order.
pub open spec fn fp_lt(a: u64, b: u64) -> bool {
    fp_cmp(a, b) == Some(-1i8)
}

/// True when the left value is strictly above the right one in the IEEE
/// order.
pub open spec fn fp_gt(a: u64, b: u64) -> bool {
    fp_cmp(a, b) == Some(1i8)
}

/// True when the two values are equal in the IEEE sense, in which
/// zeroes of both signs are equal and a NaN equals nothing.
pub open spec fn fp_eq(a: u64, b: u64) -> bool {
    fp_cmp(a, b) == Some(0i8)
}

/// True when the left value is at most the right one in the IEEE order.
pub open spec fn fp_le(a: u64, b: u64) -> bool {
    fp_lt(a, b) || fp_eq(a, b)
}

/// Executable form of `fp_lt`.
pub fn lt(a: Fp, b: Fp) -> (r: bool)
    ensures
        r == fp_lt(a.0, b.0),
{
    match cmp(a, b) {
        Some(c) => c == -1,
        None => false,
    }
}

/// Executable form of `fp_gt`.
pub fn gt(a: Fp, b: Fp) -> (r: bool)
    ensures
        r == fp_gt(a.0, b.0),
{
    match cmp(a, b) {
        Some(c) => c == 1,
        None => false,
    }
}

/// Executable form of `fp_eq`.
pub fn eq(a: Fp, b: Fp) -> (r: bool)
    ensures
        r == fp_eq(a.0, b.0),
{
    match cmp(a, b) {
        Some(c) => c == 0,
        None => false,
    }
}

/// Executable form of `fp_le`.
pub fn le(a: Fp, b: Fp) -> (r: bool)
    ensures
        r == fp_le(a.0, b.0),
{
    match cmp(a, b) {
        Some(c) => c == -1 || c == 0,
        None => false,
    }
}

} // verus!
