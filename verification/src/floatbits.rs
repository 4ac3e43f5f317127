use vstd::prelude::*;
use rustc_apfloat::Float;

verus! {

/// The bit pattern of the IEEE 754 double, correctly rounded, that the
/// decimal text denotes.
pub uninterp spec fn f64_of_decimal(s: Seq<char>) -> u64;

/// The bit pattern of the IEEE 754 sum of the two doubles given as bits.
pub uninterp spec fn fadd_bits(a: u64, b: u64) -> u64;

/// The bit pattern of the IEEE 754 difference of the two doubles given as bits.
pub uninterp spec fn fsub_bits(a: u64, b: u64) -> u64;

/// The bit pattern of the IEEE 754 product of the two doubles given as bits.
pub uninterp spec fn fmul_bits(a: u64, b: u64) -> u64;

/// The bit pattern of the IEEE 754 quotient of the two doubles given as bits.
pub uninterp spec fn fdiv_bits(a: u64, b: u64) -> u64;

/// The bit pattern of the double that holds the integer exactly.
pub uninterp spec fn f64_of_i32(i: i32) -> u64;

/// The decimal text that renders the double given as bits.
pub uninterp spec fn f64_text(bits: u64) -> Seq<char>;

/// Relies on rustc_apfloat's Double::from_str: correctly rounded decimal to
/// binary conversion, a function of the text alone. The texts handed over
/// are digits with at most one dot, which that parser accepts; any other
/// text falls back to the zero pattern, keeping the result a function of
/// the text.
#[verifier::external_body]
pub(crate) fn parse_f64(s: &str) -> (r: u64)
    ensures
        r == f64_of_decimal(s@),
{
    match s.parse::<rustc_apfloat::ieee::Double>() {
        Ok(d) => d.to_bits() as u64,
        Err(_) => 0,
    }
}

/// Relies on rustc_apfloat's Double addition, rounding to nearest even: a
/// function of the two bit patterns alone.
#[verifier::external_body]
pub(crate) fn float_add(a: u64, b: u64) -> (r: u64)
    ensures
        r == fadd_bits(a, b),
{
    let x = rustc_apfloat::ieee::Double::from_bits(a as u128);
    let y = rustc_apfloat::ieee::Double::from_bits(b as u128);
    (x + y).value.to_bits() as u64
}

/// Relies on rustc_apfloat's Double subtraction, rounding to nearest even: a
/// function of the two bit patterns alone.
#[verifier::external_body]
pub(crate) fn float_sub(a: u64, b: u64) -> (r: u64)
    ensures
        r == fsub_bits(a, b),
{
    let x = rustc_apfloat::ieee::Double::from_bits(a as u128);
    let y = rustc_apfloat::ieee::Double::from_bits(b as u128);
    (x - y).value.to_bits() as u64
}

/// Relies on rustc_apfloat's Double multiplication, rounding to nearest even:
/// a function of the two bit patterns alone.
#[verifier::external_body]
pub(crate) fn float_mul(a: u64, b: u64) -> (r: u64)
    ensures
        r == fmul_bits(a, b),
{
    let x = rustc_apfloat::ieee::Double::from_bits(a as u128);
    let y = rustc_apfloat::ieee::Double::from_bits(b as u128);
    (x * y).value.to_bits() as u64
}

/// Relies on rustc_apfloat's Double division, rounding to nearest even: a
/// function of the two bit patterns alone.
#[verifier::external_body]
pub(crate) fn float_div(a: u64, b: u64) -> (r: u64)
    ensures
        r == fdiv_bits(a, b),
{
    let x = rustc_apfloat::ieee::Double::from_bits(a as u128);
    let y = rustc_apfloat::ieee::Double::from_bits(b as u128);
    (x / y).value.to_bits() as u64
}

/// Relies on rustc_apfloat's Double::from_i128: every 32-bit integer is
/// exactly representable, and the result depends on the integer alone.
#[verifier::external_body]
pub(crate) fn i32_to_f64_bits(i: i32) -> (r: u64)
    ensures
        r == f64_of_i32(i),
{
    rustc_apfloat::ieee::Double::from_i128(i as i128).value.to_bits() as u64
}

/// Relies on rustc_apfloat's decimal formatting of a Double: a function of
/// the bit pattern alone.
#[verifier::external_body]
pub(crate) fn render_f64(bits: u64) -> (r: String)
    ensures
        r@ == f64_text(bits),
{
    format!("{}", rustc_apfloat::ieee::Double::from_bits(bits as u128))
}

/// Whether the bit pattern is one of the two IEEE 754 zeros.
pub open spec fn float_is_zero(bits: u64) -> bool {
    bits & 0x7FFF_FFFF_FFFF_FFFF == 0
}

/// Executable test for the two zero patterns.
pub fn float_bits_is_zero(bits: u64) -> (r: bool)
    ensures
        r == float_is_zero(bits),
{
    bits & 0x7FFF_FFFF_FFFF_FFFF == 0
}

/// Whether the double given as bits has fractional part exactly zero.
///
/// Reading the fields of the pattern: with biased exponent e and fraction
/// bits f, the value is an integer when the exponent is at least 1075 (the
/// unit is then a whole number of ulps), when the whole pattern is a zero,
/// or when the bits of f below the binary point are all zero. The infinity
/// and not-a-number patterns (e = 0x7FF) have no zero fractional part.
pub open spec fn float_is_integral(bits: u64) -> bool {
    let e = (bits >> 52) & 0x7FF;
    let f = bits & 0xF_FFFF_FFFF_FFFF;
    if e == 0x7FF {
        false
    } else if e >= 1075 {
        true
    } else if e < 1023 {
        bits & 0x7FFF_FFFF_FFFF_FFFF == 0
    } else {
        f & low_mask((1075 - e) as u64) == 0
    }
}

/// The mask of the low n bits, for n at most 63.
pub open spec fn low_mask(n: u64) -> u64 {
    ((1u64 << n) - 1) as u64
}

/// Executable test for a zero fractional part.
pub fn float_bits_integral(bits: u64) -> (r: bool)
    ensures
        r == float_is_integral(bits),
{
    let e = (bits >> 52) & 0x7FF;
    let f = bits & 0xF_FFFF_FFFF_FFFF;
    if e == 0x7FF {
        false
    } else if e >= 1075 {
        true
    } else if e < 1023 {
        bits & 0x7FFF_FFFF_FFFF_FFFF == 0
    } else {
        let sh = 1075 - e;
        assert(sh < 64);
        assert((1u64 << sh) >= 1) by (bit_vector)
            requires
                sh < 64,
        ;
        f & ((1u64 << sh) - 1) == 0
    }
}

/// What the saturating cast of an integral double to a 32-bit integer
/// yields: the value itself when it fits, else the nearest bound; the two
/// zero patterns yield zero.
pub open spec fn float_to_i32_sat(bits: u64) -> int {
    let neg = (bits >> 63) == 1u64;
    let e = (bits >> 52) & 0x7FF;
    let f = bits & 0xF_FFFF_FFFF_FFFF;
    if bits & 0x7FFF_FFFF_FFFF_FFFF == 0 {
        0
    } else if e < 1023 {
        0
    } else if e >= 1075 {
        if neg {
            i32::MIN as int
        } else {
            i32::MAX as int
        }
    } else {
        let m = (f | 0x10_0000_0000_0000) as u64;
        let mag = m >> ((1075 - e) as u64);
        if neg {
            if mag >= 0x8000_0000 {
                i32::MIN as int
            } else {
                -(mag as int)
            }
        } else {
            if mag >= 0x8000_0000 {
                i32::MAX as int
            } else {
                mag as int
            }
        }
    }
}

/// Executable saturating cast of an integral double given as bits.
pub fn float_bits_to_i32(bits: u64) -> (r: i32)
    ensures
        r as int == float_to_i32_sat(bits),
{
    let neg = (bits >> 63) == 1u64;
    let e = (bits >> 52) & 0x7FF;
    let f = bits & 0xF_FFFF_FFFF_FFFF;
    if bits & 0x7FFF_FFFF_FFFF_FFFF == 0 {
        0
    } else if e < 1023 {
        0
    } else if e >= 1075 {
        if neg {
            i32::MIN
        } else {
            i32::MAX
        }
    } else {
        let m = f | 0x10_0000_0000_0000;
        let sh = 1075 - e;
        assert(sh < 64);
        let mag = m >> sh;
        if neg {
            if mag >= 0x8000_0000 {
                i32::MIN
            } else {
                -(mag as i32)
            }
        } else {
            if mag >= 0x8000_0000 {
                i32::MAX
            } else {
                mag as i32
            }
        }
    }
}

} // verus!
