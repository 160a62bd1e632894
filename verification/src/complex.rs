//! Complex amplitudes, carried as IEEE-754 single-precision bit patterns.
//!
//! Verified code never holds a floating-point value: an amplitude is a pair
//! of `u32` bit patterns, and every arithmetic step on amplitudes goes
//! through one of the trusted wrappers below.  Each wrapper makes a single
//! numeric call and converts its operands and result between bit patterns
//! and numbers.  Where IEEE 754 fixes the result exactly — the basic
//! arithmetic, comparisons and conversions — it is named by an
//! uninterpreted spec function, so contracts pin it as a function of the
//! operands; the transcendental calls (`cos`, `sin`, `powf`), whose
//! precision is platform-dependent, promise nothing.  Negation alone is
//! verified code: IEEE-754 negation is exactly a flip of the sign bit.

use vstd::prelude::*;
use num_complex::Complex32;
use rand::Rng;
use std::primitive::f32 as fbits32;
use std::primitive::f64 as fbits64;

verus! {

/// One complex amplitude: the IEEE-754 bit patterns of its real and
/// imaginary parts.
#[derive(Clone, Copy, PartialEq, Eq, Structural, Debug)]
pub struct Amp {
    pub re: u32,
    pub im: u32,
}

/// Bit pattern of 0.0f32.
pub const B_ZERO: u32 = 0x0000_0000;

/// Bit pattern of 1.0f32.
pub const B_ONE: u32 = 0x3F80_0000;

/// Bit pattern of -1.0f32.
pub const B_MINUS_ONE: u32 = 0xBF80_0000;

/// Bit pattern of 0.5f32.
pub const B_HALF: u32 = 0x3F00_0000;

/// Bit pattern of 2.0f32.
pub const B_TWO: u32 = 0x4000_0000;

/// Bit pattern of 3.0f32.
pub const B_THREE: u32 = 0x4040_0000;

/// Bit pattern of 4.0f32.
pub const B_FOUR: u32 = 0x4080_0000;

/// Bit pattern of 8.0f32.
pub const B_EIGHT: u32 = 0x4100_0000;

/// Bit pattern of the f32 nearest pi.
pub const B_PI: u32 = 0x4049_0FDB;

/// Bit pattern of -0.5f32.
pub const B_NEG_HALF: u32 = 0xBF00_0000;

/// Bit pattern of the f32 nearest 1/sqrt(2).
pub const B_FRAC_1_SQRT_2: u32 = 0x3F35_04F3;

/// Bit pattern of the f32 nearest -1/sqrt(2).
pub const B_NEG_FRAC_1_SQRT_2: u32 = 0xBF35_04F3;

/// The sign bit of an IEEE-754 single-precision pattern.
pub const SIGN_BIT: u32 = 0x8000_0000;

/// Bit pattern of 1.0f64; bit patterns of nonnegative f64 values order as
/// the values do, so a pattern below this one denotes a value in [0, 1).
pub const B64_ONE: u64 = 0x3FF0_0000_0000_0000;

impl Amp {
    /// The amplitude 0.
    pub fn zero() -> (r: Amp)
        ensures
            r == (Amp { re: B_ZERO, im: B_ZERO }),
    {
        Amp { re: B_ZERO, im: B_ZERO }
    }

    /// The amplitude 1.
    pub fn one() -> (r: Amp)
        ensures
            r == (Amp { re: B_ONE, im: B_ZERO }),
    {
        Amp { re: B_ONE, im: B_ZERO }
    }
}

/// The bit pattern of the negated value: IEEE-754 negation is exactly a
/// flip of the sign bit, for every operand.
pub open spec fn spec_fneg(a: u32) -> u32 {
    a ^ SIGN_BIT
}

/// Flips the sign bit, which negates the denoted f32 value.
pub fn fneg(a: u32) -> (r: u32)
    ensures
        r == spec_fneg(a),
{
    a ^ SIGN_BIT
}

/// The negated amplitude: both components change sign.
pub open spec fn spec_cneg(a: Amp) -> Amp {
    Amp { re: spec_fneg(a.re), im: spec_fneg(a.im) }
}

/// Negates an amplitude by flipping both sign bits.
pub fn cneg(a: Amp) -> (r: Amp)
    ensures
        r == spec_cneg(a),
{
    Amp { re: a.re ^ SIGN_BIT, im: a.im ^ SIGN_BIT }
}

/// Negation is an involution: flipping the sign bit twice restores any
/// bit pattern, so negating an amplitude twice restores it exactly.
pub proof fn lemma_cneg_involution(a: Amp)
    ensures
        spec_cneg(spec_cneg(a)) == a,
{
    let re = a.re;
    let im = a.im;
    assert(re ^ SIGN_BIT ^ SIGN_BIT == re) by (bit_vector);
    assert(im ^ SIGN_BIT ^ SIGN_BIT == im) by (bit_vector);
}

/// The product of two amplitudes under complex f32 multiplication.
pub uninterp spec fn spec_cmul(a: Amp, b: Amp) -> Amp;

/// The sum of two amplitudes under componentwise f32 addition.
pub uninterp spec fn spec_cadd(a: Amp, b: Amp) -> Amp;

/// The f32 squared magnitude `re*re + im*im` of an amplitude.
pub uninterp spec fn spec_cnorm_sqr(a: Amp) -> u32;

/// The f32 sum of two values given as bit patterns.  For these basic
/// operations IEEE 754 fixes the result bit pattern exactly, with one
/// limit: the pattern of a freshly produced NaN (an invalid operation
/// such as adding opposite infinities) is not fixed; the names below are
/// exact outside those operand pairs.
pub uninterp spec fn spec_fadd(a: u32, b: u32) -> u32;

/// The f32 difference of two values given as bit patterns.
pub uninterp spec fn spec_fsub(a: u32, b: u32) -> u32;

/// The f32 product of two values given as bit patterns.
pub uninterp spec fn spec_fmul(a: u32, b: u32) -> u32;

/// The f32 quotient of two values given as bit patterns.
pub uninterp spec fn spec_fdiv(a: u32, b: u32) -> u32;

/// The f32 value denoted by a decimal string, if it parses.
pub uninterp spec fn spec_parse_f32(s: Seq<char>) -> Option<u32>;

/// The f32 nearest to the value of an unsigned integer (the conversion
/// is exact below 2^24).
pub uninterp spec fn spec_f32_of_u64(x: u64) -> u32;

/// The f64 value of an f32 given as a bit pattern (widening is exact).
pub uninterp spec fn spec_f64_of(a: u32) -> u64;

/// The f64 sum of two values given as bit patterns.
pub uninterp spec fn spec_f64_add(a: u64, b: u64) -> u64;

/// The f64 product of two values given as bit patterns.
pub uninterp spec fn spec_f64_mul(a: u64, b: u64) -> u64;

/// Whether the f64 denoted by `a` is strictly below the one denoted by `b`.
pub uninterp spec fn spec_f64_lt(a: u64, b: u64) -> bool;

/// Relies on `num_complex`'s `Mul` for `Complex32`: complex multiplication,
/// a pure function of the two operands.
#[verifier::external_body]
pub(crate) fn cmul(a: Amp, b: Amp) -> (r: Amp)
    ensures
        r == spec_cmul(a, b),
{
    let x = Complex32::new(fbits32::from_bits(a.re), fbits32::from_bits(a.im));
    let y = Complex32::new(fbits32::from_bits(b.re), fbits32::from_bits(b.im));
    let z = x * y;
    Amp { re: z.re.to_bits(), im: z.im.to_bits() }
}

/// Relies on `num_complex`'s `Add` for `Complex32`: componentwise addition,
/// a pure function of the two operands.
#[verifier::external_body]
pub(crate) fn cadd(a: Amp, b: Amp) -> (r: Amp)
    ensures
        r == spec_cadd(a, b),
{
    let x = Complex32::new(fbits32::from_bits(a.re), fbits32::from_bits(a.im));
    let y = Complex32::new(fbits32::from_bits(b.re), fbits32::from_bits(b.im));
    let z = x + y;
    Amp { re: z.re.to_bits(), im: z.im.to_bits() }
}

/// Relies on `num_complex`'s `Complex32::norm_sqr`: `re*re + im*im`, a pure
/// function of the operand.
#[verifier::external_body]
pub(crate) fn cnorm_sqr(a: Amp) -> (r: u32)
    ensures
        r == spec_cnorm_sqr(a),
{
    Complex32::new(fbits32::from_bits(a.re), fbits32::from_bits(a.im)).norm_sqr().to_bits()
}

/// Relies on f32 addition, which IEEE 754 fixes exactly.
#[verifier::external_body]
pub(crate) fn fadd(a: u32, b: u32) -> (r: u32)
    ensures
        r == spec_fadd(a, b),
{
    (fbits32::from_bits(a) + fbits32::from_bits(b)).to_bits()
}

/// Relies on f32 subtraction, which IEEE 754 fixes exactly.
#[verifier::external_body]
pub(crate) fn fsub(a: u32, b: u32) -> (r: u32)
    ensures
        r == spec_fsub(a, b),
{
    (fbits32::from_bits(a) - fbits32::from_bits(b)).to_bits()
}

/// Relies on f32 multiplication, which IEEE 754 fixes exactly.
#[verifier::external_body]
pub(crate) fn fmul(a: u32, b: u32) -> (r: u32)
    ensures
        r == spec_fmul(a, b),
{
    (fbits32::from_bits(a) * fbits32::from_bits(b)).to_bits()
}

/// Relies on f32 division, which IEEE 754 fixes exactly.
#[verifier::external_body]
pub(crate) fn fdiv(a: u32, b: u32) -> (r: u32)
    ensures
        r == spec_fdiv(a, b),
{
    (fbits32::from_bits(a) / fbits32::from_bits(b)).to_bits()
}

/// Calls `f32::cos`.  Its precision is platform-dependent (it may differ
/// between targets and even between invocations), so nothing is promised
/// of the result.
#[verifier::external_body]
pub(crate) fn fcos(a: u32) -> u32 {
    fbits32::from_bits(a).cos().to_bits()
}

/// Calls `f32::sin`.  Its precision is platform-dependent, so nothing is
/// promised of the result.
#[verifier::external_body]
pub(crate) fn fsin(a: u32) -> u32 {
    fbits32::from_bits(a).sin().to_bits()
}

/// Calls `f32::powf`.  Its precision is platform-dependent, so nothing is
/// promised of the result.
#[verifier::external_body]
pub(crate) fn fpowf(base: u32, exponent: u32) -> u32 {
    fbits32::from_bits(base).powf(fbits32::from_bits(exponent)).to_bits()
}

/// Relies on `str::parse::<f32>`: correctly-rounded decimal conversion, a
/// pure function of the string.
#[verifier::external_body]
pub(crate) fn parse_f32(s: &str) -> (r: Option<u32>)
    ensures
        r == spec_parse_f32(s@),
{
    match s.parse::<fbits32>() {
        Ok(v) => Some(v.to_bits()),
        Err(_) => None,
    }
}

/// Relies on the u64-to-f32 conversion, which rounds to nearest.
#[verifier::external_body]
pub(crate) fn f32_of_u64(x: u64) -> (r: u32)
    ensures
        r == spec_f32_of_u64(x),
{
    (x as fbits32).to_bits()
}

/// Relies on the f32-to-f64 conversion, which is exact.
#[verifier::external_body]
pub(crate) fn f64_of(a: u32) -> (r: u64)
    ensures
        r == spec_f64_of(a),
{
    fbits64::from(fbits32::from_bits(a)).to_bits()
}

/// Relies on f64 addition, which IEEE 754 fixes exactly.
#[verifier::external_body]
pub(crate) fn f64_add(a: u64, b: u64) -> (r: u64)
    ensures
        r == spec_f64_add(a, b),
{
    (fbits64::from_bits(a) + fbits64::from_bits(b)).to_bits()
}

/// Relies on f64 multiplication, which IEEE 754 fixes exactly.
#[verifier::external_body]
pub(crate) fn f64_mul(a: u64, b: u64) -> (r: u64)
    ensures
        r == spec_f64_mul(a, b),
{
    (fbits64::from_bits(a) * fbits64::from_bits(b)).to_bits()
}

/// Relies on f64 comparison, which IEEE 754 fixes exactly.
#[verifier::external_body]
pub(crate) fn f64_lt(a: u64, b: u64) -> (r: bool)
    ensures
        r == spec_f64_lt(a, b),
{
    fbits64::from_bits(a) < fbits64::from_bits(b)
}

/// Relies on `str`'s `PartialEq`: two string slices are equal exactly when
/// their character sequences are.
#[verifier::external_body]
pub(crate) fn str_eq(a: &str, b: &str) -> (r: bool)
    ensures
        r == (a@ == b@),
{
    a == b
}

/// Relies on `rand`'s `Rng::gen::<f64>` through `thread_rng`, which draws
/// from [0, 1); nothing else is promised of the draw.
#[verifier::external_body]
pub(crate) fn random_unit() -> (r: u64)
    ensures
        r < B64_ONE,
{
    let v: fbits64 = rand::thread_rng().gen();
    v.to_bits()
}

} // verus!
