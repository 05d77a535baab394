//! Fixed-point arithmetic for samples, gains and delay lengths.
//!
//! A sample or a gain is an `i64` that holds its value times 2^32, so 32 bits
//! stand behind the point. A delay length or a time is a `u64` on the same
//! scale. Products are rounded toward zero, and a result that leaves the range
//! of `i64` is limited to the nearest end of it.

use vstd::prelude::*;

verus! {

/// The signed fixed-point number 1.0.
pub const ONE: i64 = 0x1_0000_0000;

/// The unsigned fixed-point number 1.0, the scale of delay lengths and times.
pub const UNIT: u64 = 0x1_0000_0000;

/// The quotient of `p` by a positive `d`, rounded toward zero.
pub open spec fn trunc_div(p: int, d: int) -> int {
    if p >= 0 {
        p / d
    } else {
        -((-p) / d)
    }
}

/// `x` limited to the range of `i64`.
pub open spec fn saturated(x: int) -> i64 {
    if x < i64::MIN {
        i64::MIN
    } else if x > i64::MAX {
        i64::MAX
    } else {
        x as i64
    }
}

/// The fixed-point product of `value` and `gain`, rounded toward zero and not
/// yet limited to a machine range.
pub open spec fn scaled(value: int, gain: int) -> int {
    trunc_div(value * gain, ONE as int)
}

/// Limits a wide intermediate result to the range of a sample.
pub fn saturate(x: i128) -> (r: i64)
    ensures
        r == saturated(x as int),
{
    if x < i64::MIN as i128 {
        i64::MIN
    } else if x > i64::MAX as i128 {
        i64::MAX
    } else {
        x as i64
    }
}

/// The product of a difference of two samples with a gain. Both factors are
/// wider than a sample allows, which is why the result is not saturated here.
pub fn scale_difference(minuend: i64, subtrahend: i64, gain: i64) -> (r: i128)
    ensures
        r == scaled(minuend - subtrahend, gain as int),
        -0x1_0000_0000_0000_0000_0000_0000 <= r <= 0x1_0000_0000_0000_0000_0000_0000,
{
    let difference: i128 = minuend as i128 - subtrahend as i128;
    assert(-(0xffff_ffff_ffff_ffff * 0x8000_0000_0000_0000) <= difference * gain
        <= 0xffff_ffff_ffff_ffff * 0x8000_0000_0000_0000) by (nonlinear_arith)
        requires
            -0xffff_ffff_ffff_ffff <= difference <= 0xffff_ffff_ffff_ffff,
            -0x8000_0000_0000_0000 <= gain <= 0x8000_0000_0000_0000,
    ;
    let product: i128 = difference * (gain as i128);
    product / (ONE as i128)
}

/// The exact fixed-point product of a sample and a gain, before saturation.
/// Sums of a few such products fit an `i128` with room to spare.
pub fn scale_exact(value: i64, gain: i64) -> (r: i128)
    ensures
        r == scaled(value as int, gain as int),
        -0x4000_0000_0000_0000_0000_0000 <= r <= 0x4000_0000_0000_0000_0000_0000,
{
    assert(-(0x8000_0000_0000_0000 * 0x8000_0000_0000_0000) <= value * gain
        <= 0x8000_0000_0000_0000 * 0x8000_0000_0000_0000) by (nonlinear_arith)
        requires
            -0x8000_0000_0000_0000 <= value <= 0x8000_0000_0000_0000,
            -0x8000_0000_0000_0000 <= gain <= 0x8000_0000_0000_0000,
    ;
    let product: i128 = (value as i128) * (gain as i128);
    product / (ONE as i128)
}

/// Multiplies a sample by a gain: the product rounded toward zero, saturated.
pub fn scale(value: i64, gain: i64) -> (r: i64)
    ensures
        r == saturated(scaled(value as int, gain as int)),
{
    saturate(scale_exact(value, gain))
}

/// A gain of 1.0 leaves every value as it is.
pub proof fn lemma_scaled_by_one(value: int)
    ensures
        scaled(value, ONE as int) == value,
        scaled(ONE as int, value) == value,
{
    assert(value * ONE == ONE * value) by (nonlinear_arith);
    if value >= 0 {
        assert((value * 0x1_0000_0000) / 0x1_0000_0000 == value);
    } else {
        assert(-(value * 0x1_0000_0000) == (-value) * 0x1_0000_0000);
        assert(((-value) * 0x1_0000_0000) / 0x1_0000_0000 == -value);
    }
}

/// A gain of 0.0 silences every value, and silence stays silent at any gain.
pub proof fn lemma_scaled_by_zero(value: int)
    ensures
        scaled(value, 0) == 0,
        scaled(0, value) == 0,
{
    assert(value * 0 == 0) by (nonlinear_arith);
    assert(0 * value == 0) by (nonlinear_arith);
}

/// Rounding toward zero is symmetric: negating one factor negates the product.
/// This is what lets a polarity flag be folded into a gain.
pub proof fn lemma_scaled_negation(value: int, gain: int)
    ensures
        scaled(-value, gain) == -scaled(value, gain),
        scaled(value, -gain) == -scaled(value, gain),
{
    assert((-value) * gain == -(value * gain)) by (nonlinear_arith);
    assert(value * (-gain) == -(value * gain)) by (nonlinear_arith);
}

/// The magnitude of a product does not exceed that of the value when the gain
/// lies between -1.0 and 1.0, and the value keeps or flips its sign with the gain.
pub proof fn lemma_scaled_bounded(value: int, gain: int)
    requires
        -ONE <= gain <= ONE,
    ensures
        value >= 0 && gain >= 0 ==> 0 <= scaled(value, gain) <= value,
        value <= 0 && gain >= 0 ==> value <= scaled(value, gain) <= 0,
        value >= 0 && gain <= 0 ==> -value <= scaled(value, gain) <= 0,
        value <= 0 && gain <= 0 ==> 0 <= scaled(value, gain) <= -value,
{
    let one: int = ONE as int;
    if value >= 0 && gain >= 0 {
        assert(0 <= value * gain <= value * one) by (nonlinear_arith)
            requires
                value >= 0,
                0 <= gain <= one,
        ;
    }
    if value <= 0 && gain >= 0 {
        assert(0 <= (-value) * gain <= (-value) * one && (-value) * gain == -(value * gain))
            by (nonlinear_arith)
            requires
                value <= 0,
                0 <= gain <= one,
        ;
    }
    if value >= 0 && gain <= 0 {
        assert(0 <= value * (-gain) <= value * one && value * (-gain) == -(value * gain))
            by (nonlinear_arith)
            requires
                value >= 0,
                -one <= gain <= 0,
        ;
    }
    if value <= 0 && gain <= 0 {
        assert(0 <= value * gain <= (-value) * one) by (nonlinear_arith)
            requires
                value <= 0,
                -one <= gain <= 0,
        ;
    }
}

} // verus!
