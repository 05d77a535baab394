//! The automation sampler: turns the per-sample curve of a parameter into the
//! per-sample array that the processor reads, one transform per element.
//!
//! Element `i` of an array belongs to sample `i` of the block. A sampler
//! touches the first `len` elements of its destination and leaves the rest as
//! they were; a block of no samples changes nothing.

use crate::fixed::{scale, saturated, scaled};
use crate::utils::{
    db_to_gain, factor_sign, knob_gain, spec_db_to_gain, spec_factor_sign, spec_knob_gain,
};
use vstd::prelude::*;

verus! {

/// The unit in which a time parameter is given.
#[derive(Clone, Copy, Debug, PartialEq, Eq)]
pub enum TimeUnit {
    Milliseconds,
    Microseconds,
}

impl TimeUnit {
    /// How many of the unit make one second.
    pub open spec fn per_second(self) -> int {
        match self {
            TimeUnit::Milliseconds => 1_000,
            TimeUnit::Microseconds => 1_000_000,
        }
    }

    /// How many of the unit make one second.
    pub fn units_per_second(&self) -> (count: u32)
        ensures
            count == self.per_second(),
    {
        match self {
            TimeUnit::Milliseconds => 1_000,
            TimeUnit::Microseconds => 1_000_000,
        }
    }
}

/// The length in samples of a time at a sample rate: the time multiplied by
/// the rate and divided by the unit's scale, limited to the range of `u64`.
pub open spec fn spec_time_to_samples(time: u64, sample_rate: u32, unit: TimeUnit) -> u64 {
    let exact: int = (time * sample_rate) / unit.per_second();
    if exact > u64::MAX {
        u64::MAX
    } else {
        exact as u64
    }
}

/// Converts a time, a fixed-point count of `unit`, to a fixed-point count of
/// samples at `sample_rate` samples per second.
pub fn time_to_samples(time: u64, sample_rate: u32, unit: TimeUnit) -> (samples: u64)
    ensures
        samples == spec_time_to_samples(time, sample_rate, unit),
{
    assert(0 <= time * sample_rate <= 0xffff_ffff_ffff_ffff * 0xffff_ffff) by (nonlinear_arith)
        requires
            0 <= time <= 0xffff_ffff_ffff_ffff,
            0 <= sample_rate <= 0xffff_ffff,
    ;
    let product: u128 = (time as u128) * (sample_rate as u128);
    let exact: u128 = product / (unit.units_per_second() as u128);
    if exact > u64::MAX as u128 {
        u64::MAX
    } else {
        exact as u64
    }
}

/// What sampling leaves in an array: `transform` of the curve in the first
/// `len` elements, and the elements that `dest` held in the rest.
pub open spec fn sampled<A, B>(
    dest: Seq<B>,
    curve: Seq<A>,
    len: int,
    transform: spec_fn(A) -> B,
) -> Seq<B> {
    Seq::new(
        dest.len(),
        |i: int|
            if i < len {
                transform(curve[i])
            } else {
                dest[i]
            },
    )
}

/// An array after `sample_identity`.
pub open spec fn sampled_identity(dest: Seq<i64>, curve: Seq<i64>, len: int) -> Seq<i64> {
    sampled(dest, curve, len, |value: i64| value)
}

/// An array after `sample_knob_gains`.
pub open spec fn sampled_knob_gains(dest: Seq<i64>, curve: Seq<i64>, len: int) -> Seq<i64> {
    sampled(dest, curve, len, |value: i64| spec_knob_gain(value))
}

/// An array after `sample_db_gains`.
pub open spec fn sampled_db_gains(
    dest: Seq<i64>,
    levels: Seq<i64>,
    powers: Seq<i64>,
    len: int,
) -> Seq<i64> {
    Seq::new(
        dest.len(),
        |i: int|
            if i < len {
                spec_db_to_gain(levels[i], powers[i])
            } else {
                dest[i]
            },
    )
}

/// An array after `sample_delay_times`.
pub open spec fn sampled_delay_times(
    dest: Seq<u64>,
    curve: Seq<u64>,
    len: int,
    sample_rate: u32,
    unit: TimeUnit,
) -> Seq<u64> {
    sampled(dest, curve, len, |time: u64| spec_time_to_samples(time, sample_rate, unit))
}

/// An array of gains after `fold_polarity`.
pub open spec fn folded_polarity(gains: Seq<i64>, len: int, is_negative: bool) -> Seq<i64> {
    sampled(
        gains,
        gains,
        len,
        |gain: i64| saturated(scaled(gain as int, spec_factor_sign(is_negative) as int)),
    )
}

/// Copies the first `len` values of a curve as they are.
pub fn sample_identity(dest: &mut Vec<i64>, curve: &Vec<i64>, len: usize)
    requires
        len <= old(dest).len(),
        len <= curve.len(),
    ensures
        final(dest)@ == sampled_identity(old(dest)@, curve@, len as int),
{
    let mut index: usize = 0;
    while index < len
        invariant
            index <= len,
            len <= dest.len(),
            len <= curve.len(),
            dest.len() == old(dest).len(),
            forall|i: int| 0 <= i < index ==> dest[i] == curve[i],
            forall|i: int| len <= i < dest.len() ==> dest[i] == old(dest)[i],
        decreases len - index,
    {
        dest[index] = curve[index];
        index += 1;
    }
}

/// Samples a curve of knob positions in percent into gains.
pub fn sample_knob_gains(dest: &mut Vec<i64>, curve: &Vec<i64>, len: usize)
    requires
        len <= old(dest).len(),
        len <= curve.len(),
    ensures
        final(dest)@ == sampled_knob_gains(old(dest)@, curve@, len as int),
{
    let mut index: usize = 0;
    while index < len
        invariant
            index <= len,
            len <= dest.len(),
            len <= curve.len(),
            dest.len() == old(dest).len(),
            forall|i: int| 0 <= i < index ==> dest[i] == spec_knob_gain(curve[i]),
            forall|i: int| len <= i < dest.len() ==> dest[i] == old(dest)[i],
        decreases len - index,
    {
        dest[index] = knob_gain(curve[index]);
        index += 1;
    }
}

/// Samples a curve of levels in decibels into gains. `powers[i]` is the power
/// term 10^(levels[i]/20); the silence floor is applied here.
pub fn sample_db_gains(dest: &mut Vec<i64>, levels: &Vec<i64>, powers: &Vec<i64>, len: usize)
    requires
        len <= old(dest).len(),
        len <= levels.len(),
        len <= powers.len(),
    ensures
        final(dest)@ == sampled_db_gains(old(dest)@, levels@, powers@, len as int),
{
    let mut index: usize = 0;
    while index < len
        invariant
            index <= len,
            len <= dest.len(),
            len <= levels.len(),
            len <= powers.len(),
            dest.len() == old(dest).len(),
            forall|i: int| 0 <= i < index ==> dest[i] == spec_db_to_gain(levels[i], powers[i]),
            forall|i: int| len <= i < dest.len() ==> dest[i] == old(dest)[i],
        decreases len - index,
    {
        dest[index] = db_to_gain(levels[index], powers[index]);
        index += 1;
    }
}

/// Samples a curve of times into delay lengths in samples.
pub fn sample_delay_times(
    dest: &mut Vec<u64>,
    curve: &Vec<u64>,
    len: usize,
    sample_rate: u32,
    unit: TimeUnit,
)
    requires
        len <= old(dest).len(),
        len <= curve.len(),
    ensures
        final(dest)@ == sampled_delay_times(old(dest)@, curve@, len as int, sample_rate, unit),
{
    let mut index: usize = 0;
    while index < len
        invariant
            index <= len,
            len <= dest.len(),
            len <= curve.len(),
            dest.len() == old(dest).len(),
            forall|i: int|
                0 <= i < index ==> dest[i] == spec_time_to_samples(curve[i], sample_rate, unit),
            forall|i: int| len <= i < dest.len() ==> dest[i] == old(dest)[i],
        decreases len - index,
    {
        dest[index] = time_to_samples(curve[index], sample_rate, unit);
        index += 1;
    }
}

/// Folds a polarity flag into the first `len` gains of an array, in place:
/// each is multiplied by -1.0 when the flag is set and by 1.0 when it is not.
pub fn fold_polarity(gains: &mut Vec<i64>, len: usize, is_negative: bool)
    requires
        len <= old(gains).len(),
    ensures
        final(gains)@ == folded_polarity(old(gains)@, len as int, is_negative),
{
    let factor: i64 = factor_sign(is_negative);
    let mut index: usize = 0;
    while index < len
        invariant
            index <= len,
            len <= gains.len(),
            gains.len() == old(gains).len(),
            factor == spec_factor_sign(is_negative),
            forall|i: int|
                0 <= i < index ==> gains[i] == saturated(
                    scaled(old(gains)[i] as int, factor as int),
                ),
            forall|i: int| index <= i < gains.len() ==> gains[i] == old(gains)[i],
        decreases len - index,
    {
        gains[index] = scale(gains[index], factor);
        index += 1;
    }
}

} // verus!
