//! Gain laws: decibels with a silence floor, percentage knobs, polarity, and
//! the two-tap interpolation of the delay line.

use crate::fixed::{
    lemma_scaled_bounded, lemma_scaled_by_one, lemma_scaled_by_zero, saturate, saturated,
    scale_difference, scaled, trunc_div, ONE,
};
use vstd::prelude::*;

verus! {

/// The level, in decibels, at and below which a gain is exactly zero: -80 dB.
pub const SILENCE_FLOOR_DB: i64 = -0x50_0000_0000;

/// The knob position that stands for a gain of 1.0: 100 percent.
pub const KNOB_FULL_SCALE: i64 = 0x64_0000_0000;

/// The gain of a level `db` whose power term 10^(db/20) is `power`.
pub open spec fn spec_db_to_gain(db: i64, power: i64) -> i64 {
    if db <= SILENCE_FLOOR_DB {
        0
    } else {
        power
    }
}

/// The gain of a level `db`, in percent, whose power term 10^(db/20) is `power`.
pub open spec fn spec_db_to_percent_gain(db: i64, power: i64) -> i64 {
    if db <= SILENCE_FLOOR_DB {
        0
    } else {
        saturated(100 * power)
    }
}

/// The gain of a knob position given in percent: a hundredth of it.
pub open spec fn spec_knob_gain(value: i64) -> i64 {
    trunc_div(value as int, 100) as i64
}

/// The factor that a polarity flag stands for.
pub open spec fn spec_factor_sign(is_negative: bool) -> i64 {
    if is_negative {
        (-ONE) as i64
    } else {
        ONE
    }
}

/// The blend `(a - b) * ratio + b` of two taps.
pub open spec fn spec_convex(a: i64, b: i64, ratio: i64) -> i64 {
    saturated(b + scaled(a - b, ratio as int))
}

/// Converts a level in decibels to a gain in percent of full scale.
///
/// The power term 10^(db/20) is a transcendental function that integer
/// arithmetic does not offer, so the caller supplies it as `power`. The
/// silence floor is decided here: at -80 dB and below the gain is exactly zero
/// whatever `power` holds.
#[inline]
pub fn db_to_percent_gain(db: i64, power: i64) -> (gain: i64)
    ensures
        gain == spec_db_to_percent_gain(db, power),
{
    if db <= SILENCE_FLOOR_DB {
        0
    } else {
        saturate(100 * (power as i128))
    }
}

/// Converts a level in decibels to a linear gain.
///
/// As in `db_to_percent_gain`, the caller supplies the power term 10^(db/20)
/// as `power`; at -80 dB and below the gain is exactly zero.
#[inline]
pub fn db_to_gain(db: i64, power: i64) -> (gain: i64)
    ensures
        gain == spec_db_to_gain(db, power),
{
    if db <= SILENCE_FLOOR_DB {
        0
    } else {
        power
    }
}

/// Converts a knob position in percent, -100 to 100, to a gain, -1.0 to 1.0.
#[inline]
pub fn knob_gain(value: i64) -> (gain: i64)
    ensures
        gain == spec_knob_gain(value),
{
    value / 100
}

/// The gain factor of a polarity flag: -1.0 when inverted, 1.0 when not.
#[inline]
pub fn factor_sign(is_negative: bool) -> (factor: i64)
    ensures
        factor == spec_factor_sign(is_negative),
{
    if is_negative {
        -ONE
    } else {
        ONE
    }
}

/// Blends two taps: `(a - b) * ratio + b`, which is `a` at a ratio of 1.0 and
/// `b` at a ratio of 0.0.
#[inline]
pub fn convex(a: i64, b: i64, ratio: i64) -> (blend: i64)
    ensures
        blend == spec_convex(a, b, ratio),
{
    saturate(b as i128 + scale_difference(a, b, ratio))
}

/// The silence floor keeps the order of levels: where the power terms of two
/// levels are not negative and ordered as the levels are, so are the gains,
/// and strictly so for two levels above the floor with distinct power terms.
/// At the floor the gain is zero whatever the power term, and above it the
/// gain is the power term itself.
pub proof fn lemma_db_gain_keeps_order(low: i64, low_power: i64, high: i64, high_power: i64)
    requires
        low <= high,
        0 <= low_power <= high_power,
    ensures
        spec_db_to_gain(low, low_power) <= spec_db_to_gain(high, high_power),
        spec_db_to_percent_gain(low, low_power) <= spec_db_to_percent_gain(high, high_power),
        SILENCE_FLOOR_DB < low && low_power < high_power ==> spec_db_to_gain(low, low_power)
            < spec_db_to_gain(high, high_power),
        spec_db_to_gain(SILENCE_FLOOR_DB, high_power) == 0,
        SILENCE_FLOOR_DB < high ==> spec_db_to_gain(high, high_power) == high_power,
{
}

/// A knob at 100 percent is a gain of 1.0, at -100 percent a gain of -1.0, and
/// at the centre a gain of 0.0. The gain never leaves that range for a knob
/// position within its own.
pub proof fn lemma_knob_gain_range(value: i64)
    requires
        -KNOB_FULL_SCALE <= value <= KNOB_FULL_SCALE,
    ensures
        -ONE <= spec_knob_gain(value) <= ONE,
        spec_knob_gain(KNOB_FULL_SCALE) == ONE,
        spec_knob_gain((-KNOB_FULL_SCALE) as i64) == -ONE,
        spec_knob_gain(0) == 0,
{
}

/// The knob law keeps the order of positions: a knob turned further up never
/// gives a smaller gain.
pub proof fn lemma_knob_gain_monotonic(low: i64, high: i64)
    requires
        low <= high,
    ensures
        spec_knob_gain(low) <= spec_knob_gain(high),
{
}

/// At a ratio of 0.0 the blend is the second tap exactly, and at a ratio of
/// 1.0 it is the first.
pub proof fn lemma_convex_ends(a: i64, b: i64)
    ensures
        spec_convex(a, b, 0) == b,
        spec_convex(a, b, ONE) == a,
{
    lemma_scaled_by_zero(a - b);
    lemma_scaled_by_one(a - b);
}

/// For a ratio from 0.0 to 1.0 the blend lies between the two taps, so it
/// never saturates.
pub proof fn lemma_convex_between(a: i64, b: i64, ratio: i64)
    requires
        0 <= ratio <= ONE,
    ensures
        a <= b ==> a <= spec_convex(a, b, ratio) <= b,
        b <= a ==> b <= spec_convex(a, b, ratio) <= a,
        spec_convex(a, b, ratio) == b + scaled(a - b, ratio as int),
{
    lemma_scaled_bounded(a - b, ratio as int);
}

/// Two equal taps blend to themselves at every ratio.
pub proof fn lemma_convex_of_equal_taps(a: i64, ratio: i64)
    ensures
        spec_convex(a, a, ratio) == a,
{
    lemma_scaled_by_zero(ratio as int);
}

} // verus!
