//! IEEE-754 binary32 arithmetic on bit patterns.
//!
//! The core carries every 32-bit float as its bit pattern in a `u32`, as
//! `f32::to_bits` would give it. The arithmetic on those patterns is done
//! in software by the `rustc_apfloat` crate (the Rust port of LLVM's
//! APFloat, a deterministic IEEE-754 implementation); its results are
//! named by the uninterpreted functions below, so that the merger's
//! contracts can state exactly which combination of additions and
//! multiplications produced each output chunk.

use vstd::prelude::*;

verus! {

/// Bit pattern of the binary32 value 1.0.
pub const F32_ONE_BITS: u32 = 0x3F80_0000;

/// The bit pattern of the IEEE-754 binary32 sum of the values with bit
/// patterns `a` and `b`, rounded to nearest, ties to even.
pub uninterp spec fn f32_add_bits(a: u32, b: u32) -> u32;

/// The bit pattern of the IEEE-754 binary32 product of the values with
/// bit patterns `a` and `b`, rounded to nearest, ties to even.
pub uninterp spec fn f32_mul_bits(a: u32, b: u32) -> u32;

/// The bit pattern of the IEEE-754 binary32 quotient of the values with
/// bit patterns `a` and `b`, rounded to nearest, ties to even.
pub uninterp spec fn f32_div_bits(a: u32, b: u32) -> u32;

/// The bit pattern of the binary32 value nearest to the integer `x`
/// (rounded to nearest, ties to even).
pub uninterp spec fn f32_from_u32_bits(x: u32) -> u32;

/// Relies on rustc_apfloat's `Single::add_r`: IEEE-754 binary32 addition,
/// round to nearest, ties to even; a function of the two patterns alone.
#[verifier::external_body]
pub fn f32_add(a: u32, b: u32) -> (r: u32)
    ensures
        r == f32_add_bits(a, b),
{
    let x = <rustc_apfloat::ieee::Single as rustc_apfloat::Float>::from_bits(a as u128);
    let y = <rustc_apfloat::ieee::Single as rustc_apfloat::Float>::from_bits(b as u128);
    let s = rustc_apfloat::Float::add_r(x, y, rustc_apfloat::Round::NearestTiesToEven);
    rustc_apfloat::Float::to_bits(s.value) as u32
}

/// Relies on rustc_apfloat's `Single::mul_r`: IEEE-754 binary32
/// multiplication, round to nearest, ties to even.
#[verifier::external_body]
pub fn f32_mul(a: u32, b: u32) -> (r: u32)
    ensures
        r == f32_mul_bits(a, b),
{
    let x = <rustc_apfloat::ieee::Single as rustc_apfloat::Float>::from_bits(a as u128);
    let y = <rustc_apfloat::ieee::Single as rustc_apfloat::Float>::from_bits(b as u128);
    let s = rustc_apfloat::Float::mul_r(x, y, rustc_apfloat::Round::NearestTiesToEven);
    rustc_apfloat::Float::to_bits(s.value) as u32
}

/// Relies on rustc_apfloat's `Single::div_r`: IEEE-754 binary32 division,
/// round to nearest, ties to even.
#[verifier::external_body]
pub fn f32_div(a: u32, b: u32) -> (r: u32)
    ensures
        r == f32_div_bits(a, b),
{
    let x = <rustc_apfloat::ieee::Single as rustc_apfloat::Float>::from_bits(a as u128);
    let y = <rustc_apfloat::ieee::Single as rustc_apfloat::Float>::from_bits(b as u128);
    let s = rustc_apfloat::Float::div_r(x, y, rustc_apfloat::Round::NearestTiesToEven);
    rustc_apfloat::Float::to_bits(s.value) as u32
}

/// Relies on rustc_apfloat's `Single::from_u128_r`: conversion of an
/// unsigned integer to the nearest binary32 value.
#[verifier::external_body]
pub fn f32_from_u32(x: u32) -> (r: u32)
    ensures
        r == f32_from_u32_bits(x),
{
    let s = <rustc_apfloat::ieee::Single as rustc_apfloat::Float>::from_u128_r(
        x as u128,
        rustc_apfloat::Round::NearestTiesToEven,
    );
    rustc_apfloat::Float::to_bits(s.value) as u32
}

} // verus!
