//! The delay line: one ring buffer per channel, written a sample at a time and
//! read back at a fractional delay by blending two neighbouring taps.
//!
//! Within one frame a line is read first, then written, then advanced, so a
//! tap always holds what an earlier frame wrote.

use crate::automation::{
    sample_delay_times, sample_knob_gains, sampled_delay_times, sampled_knob_gains, TimeUnit,
};
use crate::fixed::{scaled, UNIT};
use crate::utils::{convex, lemma_convex_between, lemma_convex_of_equal_taps, spec_convex};
use vstd::arithmetic::div_mod::{
    lemma_fundamental_div_mod, lemma_mod_add_multiples_vanish, lemma_mod_bound,
    lemma_mod_multiples_vanish, lemma_small_mod, lemma_sub_mod_noop_right,
};
use vstd::prelude::*;

verus! {

/// The whole part of a delay length, rounded up: how many slots behind the
/// write pointer the first tap lies.
pub open spec fn whole_delay(delay: u64) -> int {
    (delay + UNIT - 1) / (UNIT as int)
}

/// The fractional part of a delay length: the weight of the first tap.
pub open spec fn fractional_delay(delay: u64) -> i64 {
    (delay % UNIT) as i64
}

/// The write pointer after one step: one further, and 0 at the capacity.
pub open spec fn next_pointer(pointer: int, capacity: int) -> int {
    if pointer + 1 == capacity {
        0
    } else {
        pointer + 1
    }
}

/// The mathematical model of a delay line.
#[verifier::ext_equal]
pub struct LineView {
    /// The ring buffer of each channel.
    pub buffers: Seq<Seq<i64>>,
    /// The write pointer of each channel: the slot that the next write fills.
    pub write_pointers: Seq<int>,
    /// The length of every ring buffer.
    pub capacity: int,
    /// The delay length in force, in samples.
    pub delay: u64,
    /// The feedback gain in force.
    pub feedback: i64,
    /// The sample rate that the line was set up for.
    pub sample_rate: u32,
    /// The delay length of each sample of the current block.
    pub delay_automation: Seq<u64>,
    /// The feedback gain of each sample of the current block.
    pub feedback_automation: Seq<i64>,
}

impl LineView {
    /// Every channel has a buffer of the line's capacity and a write pointer
    /// inside it, and the two automation arrays are equally long.
    pub open spec fn well_formed(self) -> bool {
        &&& self.buffers.len() == self.write_pointers.len()
        &&& forall|c: int|
            0 <= c < self.buffers.len() ==> (#[trigger] self.buffers[c]).len() == self.capacity
        &&& forall|c: int|
            0 <= c < self.write_pointers.len() ==> 0 <= #[trigger] self.write_pointers[c]
                < self.capacity
        &&& self.delay_automation.len() == self.feedback_automation.len()
    }

    /// The line as `init` leaves it: silent buffers, pointers at 0, no delay,
    /// no feedback, automation arrays of zeros.
    pub open spec fn fresh(
        capacity: int,
        num_channels: int,
        block_capacity: int,
        sample_rate: u32,
    ) -> LineView {
        LineView {
            buffers: Seq::new(
                num_channels as nat,
                |c: int| Seq::new(capacity as nat, |i: int| 0i64),
            ),
            write_pointers: Seq::new(num_channels as nat, |c: int| 0int),
            capacity,
            delay: 0,
            feedback: 0,
            sample_rate,
            delay_automation: Seq::new(block_capacity as nat, |i: int| 0u64),
            feedback_automation: Seq::new(block_capacity as nat, |i: int| 0i64),
        }
    }

    /// The line as `reset` leaves it: every sample zero, every pointer at 0,
    /// all else as it was.
    pub open spec fn cleared(self) -> LineView {
        LineView {
            buffers: Seq::new(
                self.buffers.len(),
                |c: int| Seq::new(self.buffers[c].len(), |i: int| 0i64),
            ),
            write_pointers: Seq::new(self.write_pointers.len(), |c: int| 0int),
            ..self
        }
    }

    /// The line with another delay length in force.
    pub open spec fn set_delay(self, delay: u64) -> LineView {
        LineView { delay, ..self }
    }

    /// The line with another feedback gain in force.
    pub open spec fn set_feedback(self, feedback: i64) -> LineView {
        LineView { feedback, ..self }
    }

    /// The line with the automation of sample `index` in force.
    pub open spec fn automate(self, index: int) -> LineView {
        LineView {
            delay: self.delay_automation[index],
            feedback: self.feedback_automation[index],
            ..self
        }
    }

    /// The slot of the first tap: the whole delay behind the write pointer,
    /// wrapped into the buffer.
    pub open spec fn tap_a_index(self, channel: int) -> int {
        (self.write_pointers[channel] - whole_delay(self.delay)) % self.capacity
    }

    /// The slot of the second tap: the one after the first.
    pub open spec fn tap_b_index(self, channel: int) -> int {
        (self.write_pointers[channel] - whole_delay(self.delay) + 1) % self.capacity
    }

    /// What `read` returns: the two taps blended by the fractional delay.
    pub open spec fn read(self, channel: int) -> i64 {
        spec_convex(
            self.buffers[channel][self.tap_a_index(channel)],
            self.buffers[channel][self.tap_b_index(channel)],
            fractional_delay(self.delay),
        )
    }

    /// The line after `write`: `value` in the slot under the write pointer.
    pub open spec fn write(self, value: i64, channel: int) -> LineView {
        LineView {
            buffers: self.buffers.update(
                channel,
                self.buffers[channel].update(self.write_pointers[channel], value),
            ),
            ..self
        }
    }

    /// The line after `advance`: the channel's write pointer one step on.
    pub open spec fn advance(self, channel: int) -> LineView {
        LineView {
            write_pointers: self.write_pointers.update(
                channel,
                next_pointer(self.write_pointers[channel], self.capacity),
            ),
            ..self
        }
    }

    /// The line after a write and an advance on one channel.
    pub open spec fn push(self, value: i64, channel: int) -> LineView {
        self.write(value, channel).advance(channel)
    }

    /// The line after pushing `values` in turn on one channel.
    pub open spec fn push_all(self, values: Seq<i64>, channel: int) -> LineView
        decreases values.len(),
    {
        if values.len() == 0 {
            self
        } else {
            self.push_all(values.drop_last(), channel).push(values.last(), channel)
        }
    }

    /// Every sample of the channel is zero.
    pub open spec fn is_silent(self, channel: int) -> bool {
        forall|i: int|
            0 <= i < self.buffers[channel].len() ==> #[trigger] self.buffers[channel][i] == 0
    }
}

/// A delay line of several channels.
pub struct DelayLine {
    buffers: Vec<Vec<i64>>,
    write_pointers: Vec<usize>,
    capacity: usize,
    delay: u64,
    feedback: i64,
    sample_rate: u32,
    delay_automation_samples: Vec<u64>,
    feedback_automation_samples: Vec<i64>,
}

impl View for DelayLine {
    type V = LineView;

    closed spec fn view(&self) -> LineView {
        LineView {
            buffers: Seq::new(self.buffers@.len(), |c: int| self.buffers@[c]@),
            write_pointers: Seq::new(
                self.write_pointers@.len(),
                |c: int| self.write_pointers@[c] as int,
            ),
            capacity: self.capacity as int,
            delay: self.delay,
            feedback: self.feedback,
            sample_rate: self.sample_rate,
            delay_automation: self.delay_automation_samples@,
            feedback_automation: self.feedback_automation_samples@,
        }
    }
}

impl Default for DelayLine {
    /// A line without channels.
    fn default() -> (line: Self)
        ensures
            line@ == LineView::fresh(0, 0, 0, 0),
            line.wf(),
    {
        let line = DelayLine {
            buffers: Vec::new(),
            write_pointers: Vec::new(),
            capacity: 0,
            delay: 0,
            feedback: 0,
            sample_rate: 0,
            delay_automation_samples: Vec::new(),
            feedback_automation_samples: Vec::new(),
        };
        assert(line@ =~~= LineView::fresh(0, 0, 0, 0));
        line
    }
}

impl DelayLine {
    /// The line's invariant, stated over its model.
    pub open spec fn wf(&self) -> bool {
        self@.well_formed()
    }

    /// What the invariant says of the fields of one channel.
    proof fn lemma_channel_fields(&self, channel: int)
        requires
            self.wf(),
            0 <= channel < self.buffers.len(),
        ensures
            self.write_pointers.len() == self.buffers.len(),
            self.buffers[channel].len() == self.capacity,
            self.write_pointers[channel] < self.capacity,
            self@.buffers[channel] == self.buffers[channel]@,
            self@.write_pointers[channel] == self.write_pointers[channel],
    {
        assert(self@.buffers[channel].len() == self@.capacity);
        assert(0 <= self@.write_pointers[channel] < self@.capacity);
    }

    /// Sets the line up anew: `num_channels` silent ring buffers of
    /// `capacity_samples` samples with their write pointers at 0, and the two
    /// automation arrays with room for a block of `block_capacity` samples.
    /// A line with channels needs a buffer of at least one sample.
    pub fn init(
        &mut self,
        capacity_samples: usize,
        num_channels: usize,
        block_capacity: usize,
        sample_rate: u32,
    )
        requires
            capacity_samples > 0 || num_channels == 0,
        ensures
            final(self)@ == LineView::fresh(
                capacity_samples as int,
                num_channels as int,
                block_capacity as int,
                sample_rate,
            ),
            final(self).wf(),
    {
        let mut buffers: Vec<Vec<i64>> = Vec::new();
        let mut write_pointers: Vec<usize> = Vec::new();
        let mut channel: usize = 0;
        while channel < num_channels
            invariant
                channel <= num_channels,
                buffers.len() == channel,
                write_pointers.len() == channel,
                forall|c: int|
                    0 <= c < channel ==> (#[trigger] buffers[c])@ =~= Seq::new(
                        capacity_samples as nat,
                        |i: int| 0i64,
                    ),
                forall|c: int| 0 <= c < channel ==> #[trigger] write_pointers[c] == 0,
            decreases num_channels - channel,
        {
            let buffer: Vec<i64> = vec![0i64; capacity_samples];
            buffers.push(buffer);
            write_pointers.push(0);
            channel += 1;
        }
        self.buffers = buffers;
        self.write_pointers = write_pointers;
        self.capacity = capacity_samples;
        self.delay = 0;
        self.feedback = 0;
        self.sample_rate = sample_rate;
        self.delay_automation_samples = vec![0u64; block_capacity];
        self.feedback_automation_samples = vec![0i64; block_capacity];
        assert(self@ =~~= LineView::fresh(
            capacity_samples as int,
            num_channels as int,
            block_capacity as int,
            sample_rate,
        ));
    }

    /// Silences the line: every sample and every write pointer becomes zero.
    /// Nothing is allocated and no length changes.
    pub fn reset(&mut self)
        requires
            old(self).wf(),
        ensures
            final(self)@ == old(self)@.cleared(),
            final(self).wf(),
    {
        let num_channels: usize = self.buffers.len();
        let capacity: usize = self.capacity;
        let mut channel: usize = 0;
        proof {
            assert forall|c: int| 0 <= c < num_channels implies (#[trigger] self.buffers[c]).len()
                == capacity by {
                self.lemma_channel_fields(c);
            }
            if num_channels > 0 {
                self.lemma_channel_fields(0);
            }
        }
        while channel < num_channels
            invariant
                channel <= num_channels,
                num_channels == self.buffers.len(),
                num_channels == self.write_pointers.len(),
                capacity == self.capacity,
                self.capacity == old(self).capacity,
                self.delay == old(self).delay,
                self.feedback == old(self).feedback,
                self.sample_rate == old(self).sample_rate,
                self.delay_automation_samples == old(self).delay_automation_samples,
                self.feedback_automation_samples == old(self).feedback_automation_samples,
                old(self).wf(),
                old(self).buffers.len() == num_channels,
                forall|c: int|
                    0 <= c < num_channels ==> (#[trigger] self.buffers[c]).len() == capacity,
                forall|c: int, i: int|
                    #![trigger self.buffers[c][i]]
                    0 <= c < channel && 0 <= i < capacity ==> self.buffers[c][i] == 0,
                forall|c: int| 0 <= c < channel ==> #[trigger] self.write_pointers[c] == 0,
            decreases num_channels - channel,
        {
            let mut index: usize = 0;
            while index < capacity
                invariant
                    index <= capacity,
                    channel < num_channels,
                    num_channels == self.buffers.len(),
                    num_channels == self.write_pointers.len(),
                    capacity == self.capacity,
                    self.capacity == old(self).capacity,
                    self.delay == old(self).delay,
                    self.feedback == old(self).feedback,
                    self.sample_rate == old(self).sample_rate,
                    self.delay_automation_samples == old(self).delay_automation_samples,
                    self.feedback_automation_samples == old(self).feedback_automation_samples,
                    forall|c: int|
                        0 <= c < num_channels ==> (#[trigger] self.buffers[c]).len() == capacity,
                    forall|c: int, i: int|
                        #![trigger self.buffers[c][i]]
                        0 <= c < channel && 0 <= i < capacity ==> self.buffers[c][i] == 0,
                    forall|i: int| 0 <= i < index ==> self.buffers[channel as int][i] == 0,
                    forall|c: int| 0 <= c < channel ==> #[trigger] self.write_pointers[c] == 0,
                decreases capacity - index,
            {
                self.buffers[channel][index] = 0;
                index += 1;
            }
            self.write_pointers[channel] = 0;
            channel += 1;
        }
        proof {
            assert forall|c: int| 0 <= c < num_channels implies #[trigger] old(self)@.buffers[c].len()
                == capacity by {
                old(self).lemma_channel_fields(c);
            }
            assert(self@ =~~= old(self)@.cleared());
        }
    }

    /// The length of each ring buffer.
    pub fn capacity(&self) -> (capacity: usize)
        ensures
            capacity == self@.capacity,
    {
        self.capacity
    }

    /// The number of channels.
    pub fn num_channels(&self) -> (count: usize)
        ensures
            count == self@.buffers.len(),
    {
        self.buffers.len()
    }

    /// The number of samples that the automation arrays have room for.
    pub fn block_capacity(&self) -> (count: usize)
        ensures
            count == self@.delay_automation.len(),
    {
        self.delay_automation_samples.len()
    }

    /// The delay length in force.
    pub fn delay(&self) -> (delay: u64)
        ensures
            delay == self@.delay,
    {
        self.delay
    }

    /// The feedback gain in force.
    pub fn feedback(&self) -> (feedback: i64)
        ensures
            feedback == self@.feedback,
    {
        self.feedback
    }

    /// Puts a delay length, in samples, in force for all channels and all
    /// reads that follow.
    pub fn set_delay(&mut self, delay_in_samples: u64)
        ensures
            final(self)@ == old(self)@.set_delay(delay_in_samples),
    {
        self.delay = delay_in_samples;
    }

    /// Puts a feedback gain in force.
    pub fn set_feedback(&mut self, feedback: i64)
        ensures
            final(self)@ == old(self)@.set_feedback(feedback),
    {
        self.feedback = feedback;
    }

    /// Puts the delay length and the feedback gain of sample `index` of the
    /// current block in force.
    pub fn automate(&mut self, index: usize)
        requires
            old(self).wf(),
            index < old(self)@.delay_automation.len(),
        ensures
            final(self)@ == old(self)@.automate(index as int),
    {
        self.delay = self.delay_automation_samples[index];
        self.feedback = self.feedback_automation_samples[index];
    }

    /// Samples a curve of delay times into the line's delay automation: a
    /// length in samples, at the line's sample rate, for each of the first
    /// `len` samples of the block.
    pub fn load_delay_automation(&mut self, times: &Vec<u64>, len: usize, unit: TimeUnit)
        requires
            len <= old(self)@.delay_automation.len(),
            len <= times.len(),
        ensures
            final(self)@ == (LineView {
                delay_automation: sampled_delay_times(
                    old(self)@.delay_automation,
                    times@,
                    len as int,
                    old(self)@.sample_rate,
                    unit,
                ),
                ..old(self)@
            }),
    {
        sample_delay_times(&mut self.delay_automation_samples, times, len, self.sample_rate, unit);
    }

    /// Samples a curve of knob positions into the line's feedback automation:
    /// a gain for each of the first `len` samples of the block.
    pub fn load_feedback_automation(&mut self, knobs: &Vec<i64>, len: usize)
        requires
            len <= old(self)@.feedback_automation.len(),
            len <= knobs.len(),
        ensures
            final(self)@ == (LineView {
                feedback_automation: sampled_knob_gains(
                    old(self)@.feedback_automation,
                    knobs@,
                    len as int,
                ),
                ..old(self)@
            }),
    {
        sample_knob_gains(&mut self.feedback_automation_samples, knobs, len);
    }

    /// Reads the channel at the delay in force: the tap that lies the whole
    /// delay, rounded up, behind the write pointer, blended with the tap after
    /// it by the fractional delay. Without a fractional part the result is the
    /// second tap exactly.
    pub fn read(&self, channel: usize) -> (value: i64)
        requires
            self.wf(),
            channel < self@.buffers.len(),
        ensures
            value == self@.read(channel as int),
    {
        proof {
            self.lemma_channel_fields(channel as int);
        }
        let remainder: u64 = self.delay % UNIT;
        let whole: u64 = self.delay / UNIT + if remainder != 0 {
            1
        } else {
            0
        };
        let capacity: u128 = self.capacity as u128;
        let pointer: u128 = self.write_pointers[channel] as u128;
        let back: u128 = (whole as u128) % capacity;
        let first: usize = ((pointer + capacity - back) % capacity) as usize;
        let second: usize = if first + 1 == self.capacity {
            0
        } else {
            first + 1
        };
        proof {
            lemma_tap_indices(pointer as int, whole as int, capacity as int);
        }
        convex(self.buffers[channel][first], self.buffers[channel][second], remainder as i64)
    }

    /// Stores a value in the slot under the channel's write pointer. Mixing
    /// feedback into the value is the caller's part.
    pub fn write(&mut self, value: i64, channel: usize)
        requires
            old(self).wf(),
            channel < old(self)@.buffers.len(),
        ensures
            final(self)@ == old(self)@.write(value, channel as int),
            final(self).wf(),
    {
        proof {
            self.lemma_channel_fields(channel as int);
        }
        let pointer: usize = self.write_pointers[channel];
        self.buffers[channel][pointer] = value;
        proof {
            assert(self@ =~~= old(self)@.write(value, channel as int));
            lemma_write_keeps_form(old(self)@, value, channel as int);
        }
    }

    /// Moves the channel's write pointer one slot on, back to 0 at the
    /// capacity.
    pub fn advance(&mut self, channel: usize)
        requires
            old(self).wf(),
            channel < old(self)@.buffers.len(),
        ensures
            final(self)@ == old(self)@.advance(channel as int),
            final(self).wf(),
    {
        proof {
            self.lemma_channel_fields(channel as int);
        }
        let pointer: usize = self.write_pointers[channel];
        let next: usize = if pointer + 1 == self.capacity {
            0
        } else {
            pointer + 1
        };
        self.write_pointers[channel] = next;
        proof {
            assert(self@ =~~= old(self)@.advance(channel as int));
            lemma_advance_keeps_form(old(self)@, channel as int);
        }
    }
}

/// How `read` finds its taps without a negative intermediate: it steps back by
/// the whole delay reduced modulo the capacity, from the pointer raised by one
/// capacity.
proof fn lemma_tap_indices(pointer: int, whole: int, capacity: int)
    requires
        0 <= pointer < capacity,
        0 <= whole,
    ensures
        (pointer + capacity - whole % capacity) % capacity == (pointer - whole) % capacity,
        0 <= (pointer - whole) % capacity < capacity,
        (pointer - whole + 1) % capacity == next_pointer((pointer - whole) % capacity, capacity),
{
    lemma_sub_mod_noop_right(pointer + capacity, whole, capacity);
    lemma_mod_add_multiples_vanish(pointer - whole, capacity);
    assert(pointer + capacity - whole == capacity + (pointer - whole));
    lemma_mod_bound(pointer - whole, capacity);
    lemma_next_slot(pointer - whole, capacity);
}

/// Stepping to the next slot and wrapping commute.
proof fn lemma_next_slot(position: int, capacity: int)
    requires
        0 < capacity,
    ensures
        (position + 1) % capacity == next_pointer(position % capacity, capacity),
{
    lemma_fundamental_div_mod(position, capacity);
    lemma_mod_bound(position, capacity);
    let quotient: int = position / capacity;
    let remainder: int = position % capacity;
    if remainder + 1 == capacity {
        assert(position + 1 == capacity * (quotient + 1) + 0) by (nonlinear_arith)
            requires
                position == capacity * quotient + remainder,
                remainder + 1 == capacity,
        ;
        lemma_mod_multiples_vanish(quotient + 1, 0, capacity);
        lemma_small_mod(0, capacity as nat);
    } else {
        lemma_mod_multiples_vanish(quotient, remainder + 1, capacity);
        lemma_small_mod((remainder + 1) as nat, capacity as nat);
    }
}

/// A write keeps a line well formed.
pub proof fn lemma_write_keeps_form(line: LineView, value: i64, channel: int)
    requires
        line.well_formed(),
        0 <= channel < line.buffers.len(),
    ensures
        line.write(value, channel).well_formed(),
{
    let after = line.write(value, channel);
    assert forall|c: int| 0 <= c < after.buffers.len() implies (#[trigger] after.buffers[c]).len()
        == after.capacity by {
        assert(line.buffers[c].len() == line.capacity);
    }
}

/// An advance keeps a line well formed.
pub proof fn lemma_advance_keeps_form(line: LineView, channel: int)
    requires
        line.well_formed(),
        0 <= channel < line.buffers.len(),
    ensures
        line.advance(channel).well_formed(),
{
    let after = line.advance(channel);
    assert forall|c: int| 0 <= c < after.write_pointers.len() implies 0
        <= #[trigger] after.write_pointers[c] < after.capacity by {
        assert(0 <= line.write_pointers[c] < line.capacity);
    }
}

/// The invariant of a line after `init`, and the silence of its channels.
pub proof fn lemma_fresh_line(
    capacity: int,
    num_channels: int,
    block_capacity: int,
    sample_rate: u32,
    channel: int,
)
    requires
        capacity > 0 || num_channels <= 0,
        0 <= channel < num_channels,
    ensures
        LineView::fresh(capacity, num_channels, block_capacity, sample_rate).well_formed(),
        LineView::fresh(capacity, num_channels, block_capacity, sample_rate).is_silent(channel),
{
}

/// A line stays well formed under `reset`, and every channel is silent after it.
pub proof fn lemma_cleared_line(line: LineView, channel: int)
    requires
        line.well_formed(),
        0 <= channel < line.buffers.len(),
    ensures
        line.cleared().well_formed(),
        line.cleared().is_silent(channel),
{
    let after = line.cleared();
    assert forall|c: int| 0 <= c < after.buffers.len() implies (#[trigger] after.buffers[c]).len()
        == after.capacity by {
        assert(line.buffers[c].len() == line.capacity);
    }
    assert(0 <= line.write_pointers[channel] < line.capacity);
}

/// A silent channel reads as zero at every delay: the line gives no sound
/// before one is written, whatever the delay and wherever the pointer stands.
pub proof fn lemma_silent_channel_reads_zero(line: LineView, channel: int, delay: u64)
    requires
        line.well_formed(),
        0 <= channel < line.buffers.len(),
        line.is_silent(channel),
    ensures
        line.set_delay(delay).read(channel) == 0,
{
    let moved = line.set_delay(delay);
    lemma_mod_bound(moved.write_pointers[channel] - whole_delay(delay), moved.capacity);
    lemma_mod_bound(moved.write_pointers[channel] - whole_delay(delay) + 1, moved.capacity);
    assert(moved.buffers[channel][moved.tap_a_index(channel)] == 0);
    assert(moved.buffers[channel][moved.tap_b_index(channel)] == 0);
    lemma_convex_of_equal_taps(0, fractional_delay(delay));
}

/// A delay without a fractional part reads the second tap and nothing else.
pub proof fn lemma_whole_delay_reads_second_tap(line: LineView, channel: int)
    requires
        line.delay % UNIT == 0,
    ensures
        line.read(channel) == line.buffers[channel][line.tap_b_index(channel)],
{
    crate::utils::lemma_convex_ends(
        line.buffers[channel][line.tap_a_index(channel)],
        line.buffers[channel][line.tap_b_index(channel)],
    );
}

/// A value followed by `zeros` samples of silence.
pub open spec fn impulse(value: i64, zeros: nat) -> Seq<i64> {
    Seq::new(
        zeros + 1,
        |i: int|
            if i == 0 {
                value
            } else {
                0i64
            },
    )
}

impl LineView {
    /// The slot that lies `age` steps behind the channel's write pointer.
    pub open spec fn slot(self, channel: int, age: int) -> int {
        (self.write_pointers[channel] - age) % self.capacity
    }
}

/// A step back from the next pointer is the pointer itself, and further steps
/// back from it never reach the pointer again within one round of the buffer.
proof fn lemma_step_back(pointer: int, age: int, capacity: int)
    requires
        0 <= pointer < capacity,
        1 <= age <= capacity,
    ensures
        (next_pointer(pointer, capacity) - age) % capacity == (pointer - (age - 1)) % capacity,
        0 <= (pointer - (age - 1)) % capacity < capacity,
        age == 1 ==> (pointer - (age - 1)) % capacity == pointer,
        age > 1 ==> (pointer - (age - 1)) % capacity != pointer,
{
    lemma_mod_bound(pointer - (age - 1), capacity);
    if pointer + 1 == capacity {
        lemma_mod_add_multiples_vanish(0 - age, capacity);
        assert(capacity + (0 - age) == pointer - (age - 1));
    }
    if pointer - (age - 1) >= 0 {
        lemma_small_mod((pointer - (age - 1)) as nat, capacity as nat);
    } else {
        lemma_mod_add_multiples_vanish(pointer - (age - 1), capacity);
        lemma_small_mod((capacity + pointer - (age - 1)) as nat, capacity as nat);
    }
}

/// Pushing keeps a line well formed and touches one channel only.
pub proof fn lemma_push_all_keeps_form(line: LineView, values: Seq<i64>, channel: int)
    requires
        line.well_formed(),
        0 <= channel < line.buffers.len(),
    ensures
        line.push_all(values, channel).well_formed(),
        line.push_all(values, channel).buffers.len() == line.buffers.len(),
        line.push_all(values, channel).capacity == line.capacity,
        line.push_all(values, channel).delay == line.delay,
        line.push_all(values, channel).feedback == line.feedback,
        forall|c: int|
            0 <= c < line.buffers.len() && c != channel ==> line.push_all(
                values,
                channel,
            ).buffers[c] == line.buffers[c] && line.push_all(values, channel).write_pointers[c]
                == line.write_pointers[c],
    decreases values.len(),
{
    if values.len() > 0 {
        let before = line.push_all(values.drop_last(), channel);
        lemma_push_all_keeps_form(line, values.drop_last(), channel);
        lemma_write_keeps_form(before, values.last(), channel);
        lemma_advance_keeps_form(before.write(values.last(), channel), channel);
    }
}

/// The ring buffer keeps its history: after a run of pushes the slot `age`
/// steps behind the write pointer holds the value pushed `age` pushes ago,
/// and a slot older than the whole run holds what it held before the run.
/// This holds for every age up to the capacity, where the buffer comes round.
pub proof fn lemma_push_all_history(line: LineView, values: Seq<i64>, channel: int, age: int)
    requires
        line.well_formed(),
        0 <= channel < line.buffers.len(),
        1 <= age <= line.capacity,
    ensures
        line.push_all(values, channel).buffers[channel][line.push_all(values, channel).slot(
            channel,
            age,
        )] == (if age <= values.len() {
            values[values.len() - age]
        } else {
            line.buffers[channel][line.slot(channel, age - values.len())]
        }),
    decreases values.len(),
{
    if values.len() > 0 {
        let before = line.push_all(values.drop_last(), channel);
        let after = line.push_all(values, channel);
        lemma_push_all_keeps_form(line, values.drop_last(), channel);
        let pointer = before.write_pointers[channel];
        assert(0 <= pointer < before.capacity);
        assert(before.buffers[channel].len() == before.capacity);
        lemma_step_back(pointer, age, before.capacity);
        assert(after.write_pointers[channel] == next_pointer(pointer, before.capacity));
        assert(after.buffers[channel] == before.buffers[channel].update(pointer, values.last()));
        if age > 1 {
            lemma_push_all_history(line, values.drop_last(), channel, age - 1);
        }
    }
}

/// A delay of a whole number of samples reads one slot: the one that lies one
/// step less than the delay behind the write pointer. That is the second tap;
/// the first tap, at the full delay, has no weight.
pub proof fn lemma_whole_delay_reads_slot(line: LineView, channel: int, delay: int)
    requires
        0 <= delay <= 0xffff_ffff,
        line.delay == delay * UNIT,
    ensures
        line.read(channel) == line.buffers[channel][line.slot(channel, delay - 1)],
{
    assert(whole_delay(line.delay) == delay && line.delay % UNIT == 0) by {
        assert(delay * 0x1_0000_0000 <= 0xffff_ffff * 0x1_0000_0000);
        assert((delay * 0x1_0000_0000) % 0x1_0000_0000 == 0);
        assert((delay * 0x1_0000_0000 + 0x1_0000_0000 - 1) / 0x1_0000_0000 == delay);
    }
    assert(line.tap_b_index(channel) == line.slot(channel, delay - 1));
    lemma_whole_delay_reads_second_tap(line, channel);
}

/// A delay with a fractional part reads two slots. For a delay of `whole`
/// samples and a fraction, the first tap lies `whole + 1` steps behind the
/// write pointer and the second `whole` steps; the fraction is the weight of
/// the first. The blend lies between the two taps, so it is never limited.
pub proof fn lemma_fractional_delay_reads_two_slots(
    line: LineView,
    channel: int,
    whole: int,
    fraction: i64,
)
    requires
        0 <= whole < 0xffff_ffff,
        0 < fraction < UNIT,
        line.delay == whole * UNIT + fraction,
    ensures
        line.read(channel) == spec_convex(
            line.buffers[channel][line.slot(channel, whole + 1)],
            line.buffers[channel][line.slot(channel, whole)],
            fraction,
        ),
        line.read(channel) == line.buffers[channel][line.slot(channel, whole)] + scaled(
            line.buffers[channel][line.slot(channel, whole + 1)] - line.buffers[channel][line.slot(
                channel,
                whole,
            )],
            fraction as int,
        ),
{
    assert(whole_delay(line.delay) == whole + 1 && line.delay % UNIT == fraction) by {
        assert(whole * 0x1_0000_0000 <= 0xffff_fffe * 0x1_0000_0000);
        assert((whole * 0x1_0000_0000 + fraction) % 0x1_0000_0000 == fraction);
        assert((whole * 0x1_0000_0000 + fraction + 0x1_0000_0000 - 1) / 0x1_0000_0000 == whole
            + 1);
    }
    assert(line.tap_a_index(channel) == line.slot(channel, whole + 1));
    assert(line.tap_b_index(channel) == line.slot(channel, whole));
    lemma_convex_between(
        line.buffers[channel][line.slot(channel, whole + 1)],
        line.buffers[channel][line.slot(channel, whole)],
        fraction,
    );
}

/// The impulse response of a line at a delay of a whole number of samples.
///
/// A silent channel is fed a value and then `zeros` samples of silence. A read
/// at a delay of exactly `delay` samples, 2 or more and no more than the
/// capacity, then returns the value if `delay - 1` pushes were made in all,
/// and silence after any other number of pushes. A delay without a fractional
/// part reads the second tap, which lies one slot nearer to the write pointer
/// than the delay says: the value comes back one frame before the delay has
/// passed.
pub proof fn lemma_impulse_response(
    line: LineView,
    channel: int,
    value: i64,
    zeros: nat,
    delay: int,
)
    requires
        line.well_formed(),
        0 <= channel < line.buffers.len(),
        line.is_silent(channel),
        2 <= delay <= line.capacity,
        delay <= 0xffff_ffff,
    ensures
        line.push_all(impulse(value, zeros), channel).set_delay((delay * UNIT) as u64).read(channel)
            == (if zeros + 1 == delay - 1 {
            value
        } else {
            0
        }),
{
    let values = impulse(value, zeros);
    let after = line.push_all(values, channel);
    let reading = after.set_delay((delay * UNIT) as u64);
    assert(delay * 0x1_0000_0000 <= 0xffff_ffff * 0x1_0000_0000);
    lemma_push_all_keeps_form(line, values, channel);
    lemma_push_all_history(line, values, channel, delay - 1);
    lemma_whole_delay_reads_slot(reading, channel, delay);
    assert(reading.slot(channel, delay - 1) == after.slot(channel, delay - 1));
    if delay - 1 > values.len() {
        lemma_mod_bound(line.write_pointers[channel] - (delay - 1 - values.len()), line.capacity);
        assert(line.buffers[channel].len() == line.capacity);
    }
}

/// A line gives no sound after `init`: every channel reads as zero at every
/// delay.
pub proof fn lemma_fresh_line_reads_zero(
    capacity: int,
    num_channels: int,
    block_capacity: int,
    sample_rate: u32,
    channel: int,
    delay: u64,
)
    requires
        capacity > 0,
        0 <= channel < num_channels,
    ensures
        LineView::fresh(capacity, num_channels, block_capacity, sample_rate).set_delay(delay).read(
            channel,
        ) == 0,
{
    let line = LineView::fresh(capacity, num_channels, block_capacity, sample_rate);
    lemma_fresh_line(capacity, num_channels, block_capacity, sample_rate, channel);
    lemma_silent_channel_reads_zero(line, channel, delay);
}

/// A line gives no sound after `reset`: every channel reads as zero at every
/// delay, whatever the line held before.
pub proof fn lemma_cleared_line_reads_zero(line: LineView, channel: int, delay: u64)
    requires
        line.well_formed(),
        0 <= channel < line.buffers.len(),
    ensures
        line.cleared().set_delay(delay).read(channel) == 0,
{
    lemma_cleared_line(line, channel);
    lemma_silent_channel_reads_zero(line.cleared(), channel, delay);
}

} // verus!
