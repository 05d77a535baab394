//! The feedback-matrix processor: two delay lines that feed themselves and
//! each other, driven sample by sample from per-block automation.
//!
//! In every frame the taps of both lines are read before either line is
//! written, so feedback always carries what an earlier frame stored. That one
//! frame of latency is what makes the coupled system computable in one pass.

use crate::automation::{
    sample_knob_gains, sampled_delay_times, sampled_knob_gains, spec_time_to_samples, TimeUnit,
};
use crate::delay_line::{
    lemma_advance_keeps_form, lemma_write_keeps_form, whole_delay, DelayLine, LineView,
};
use crate::fixed::{lemma_scaled_by_zero, saturate, saturated, scale_exact, scaled, UNIT};
use vstd::prelude::*;

verus! {

/// The longest delay time that a line can be set to, in milliseconds.
pub const MAX_DELAY_TIME_MS: u32 = 16000;

/// The samples that a ring buffer holds beyond its longest delay.
pub const GUARD_SAMPLES: u32 = 5;

/// The length of a ring buffer: the samples of the longest delay at the sample
/// rate, rounded up, and the guard.
pub open spec fn spec_buffer_capacity(sample_rate: u32, max_delay_ms: u32, guard: u32) -> int {
    (sample_rate * max_delay_ms + 999) / 1000 + guard
}

/// Computes the length of a ring buffer for a sample rate, a longest delay in
/// milliseconds and a guard. There is none where the length does not fit the
/// machine's `usize`.
pub fn buffer_capacity(sample_rate: u32, max_delay_ms: u32, guard: u32) -> (capacity: Option<usize>)
    ensures
        spec_buffer_capacity(sample_rate, max_delay_ms, guard) <= usize::MAX ==> capacity == Some(
            spec_buffer_capacity(sample_rate, max_delay_ms, guard) as usize,
        ),
        spec_buffer_capacity(sample_rate, max_delay_ms, guard) > usize::MAX ==> capacity is None,
{
    assert(0 <= sample_rate * max_delay_ms <= 0xffff_ffff * 0xffff_ffff) by (nonlinear_arith)
        requires
            0 <= sample_rate <= 0xffff_ffff,
            0 <= max_delay_ms <= 0xffff_ffff,
    ;
    let product: u64 = (sample_rate as u64) * (max_delay_ms as u64);
    let samples: u64 = (product + 999) / 1000 + guard as u64;
    if samples > usize::MAX as u64 {
        None
    } else {
        Some(samples as usize)
    }
}

/// What a line is fed in one frame: the input through the line's input send,
/// the other line's tap through the cross send, and the line's own tap
/// through its feedback.
pub open spec fn injected(
    input: i64,
    input_send: i64,
    other_tap: i64,
    cross_send: i64,
    own_tap: i64,
    feedback: i64,
) -> i64 {
    saturated(
        scaled(input as int, input_send as int) + scaled(other_tap as int, cross_send as int)
            + scaled(own_tap as int, feedback as int),
    )
}

/// The output of one frame: the dry input and the two taps through their
/// output sends.
pub open spec fn mixed(
    input: i64,
    dry: i64,
    tap_a: i64,
    a_send_out: i64,
    tap_b: i64,
    b_send_out: i64,
) -> i64 {
    saturated(
        scaled(input as int, dry as int) + scaled(tap_a as int, a_send_out as int) + scaled(
            tap_b as int,
            b_send_out as int,
        ),
    )
}

/// Computes what a line is fed in one frame.
pub fn inject(
    input: i64,
    input_send: i64,
    other_tap: i64,
    cross_send: i64,
    own_tap: i64,
    feedback: i64,
) -> (value: i64)
    ensures
        value == injected(input, input_send, other_tap, cross_send, own_tap, feedback),
{
    saturate(
        scale_exact(input, input_send) + scale_exact(other_tap, cross_send) + scale_exact(
            own_tap,
            feedback,
        ),
    )
}

/// Computes the output of one frame.
pub fn mix(
    input: i64,
    dry: i64,
    tap_a: i64,
    a_send_out: i64,
    tap_b: i64,
    b_send_out: i64,
) -> (value: i64)
    ensures
        value == mixed(input, dry, tap_a, a_send_out, tap_b, b_send_out),
{
    let dry_component: i128 = scale_exact(input, dry);
    let wet_component: i128 = scale_exact(tap_a, a_send_out) + scale_exact(tap_b, b_send_out);
    saturate(dry_component + wet_component)
}

/// How a call of `process` ended.
#[derive(Clone, Copy, Debug, PartialEq, Eq)]
pub enum ProcessStatus {
    /// The block was processed.
    Normal,
    /// The block does not fit what the processor was set up for; nothing was
    /// changed.
    Fatal,
}

/// The curves of all parameters over one block, one value per sample: knob
/// positions in percent, and delay times in milliseconds.
pub struct BlockCurves {
    /// Dry level.
    pub in_send_out: Vec<i64>,
    /// Input to line A.
    pub in_send_a: Vec<i64>,
    /// Input to line B.
    pub in_send_b: Vec<i64>,
    /// Line A to the output.
    pub a_send_out: Vec<i64>,
    /// Delay time of line A.
    pub delay_a: Vec<u64>,
    /// Feedback of line A.
    pub fb_a: Vec<i64>,
    /// Line A to line B.
    pub a_send_b: Vec<i64>,
    /// Line B to the output.
    pub b_send_out: Vec<i64>,
    /// Delay time of line B.
    pub delay_b: Vec<u64>,
    /// Feedback of line B.
    pub fb_b: Vec<i64>,
    /// Line B to line A.
    pub b_send_a: Vec<i64>,
}

impl BlockCurves {
    /// Every curve has a value for each of `frame_count` samples.
    pub open spec fn covers(&self, frame_count: int) -> bool {
        &&& frame_count <= self.in_send_out.len()
        &&& frame_count <= self.in_send_a.len()
        &&& frame_count <= self.in_send_b.len()
        &&& frame_count <= self.a_send_out.len()
        &&& frame_count <= self.delay_a.len()
        &&& frame_count <= self.fb_a.len()
        &&& frame_count <= self.a_send_b.len()
        &&& frame_count <= self.b_send_out.len()
        &&& frame_count <= self.delay_b.len()
        &&& frame_count <= self.fb_b.len()
        &&& frame_count <= self.b_send_a.len()
    }

    /// Tells whether every curve has a value for each of `frame_count`
    /// samples.
    pub fn has_samples(&self, frame_count: usize) -> (covered: bool)
        ensures
            covered == self.covers(frame_count as int),
    {
        frame_count <= self.in_send_out.len() && frame_count <= self.in_send_a.len() && frame_count
            <= self.in_send_b.len() && frame_count <= self.a_send_out.len() && frame_count
            <= self.delay_a.len() && frame_count <= self.fb_a.len() && frame_count
            <= self.a_send_b.len() && frame_count <= self.b_send_out.len() && frame_count
            <= self.delay_b.len() && frame_count <= self.fb_b.len() && frame_count
            <= self.b_send_a.len()
    }
}

/// The mathematical model of the processor.
#[verifier::ext_equal]
pub struct DelayView {
    /// The sample rate in hertz.
    pub sample_rate: u32,
    /// Line A.
    pub line_a: LineView,
    /// Line B.
    pub line_b: LineView,
    /// The gain from the input into line A, per sample of the block.
    pub in_send_a: Seq<i64>,
    /// The gain from the input into line B, per sample of the block.
    pub in_send_b: Seq<i64>,
    /// The gain from line A to the output, per sample of the block.
    pub a_send_out: Seq<i64>,
    /// The gain from line B to the output, per sample of the block.
    pub b_send_out: Seq<i64>,
    /// The gain from the input to the output, per sample of the block.
    pub dry: Seq<i64>,
    /// The gain from line A into line B, per sample of the block.
    pub a_send_b: Seq<i64>,
    /// The gain from line B into line A, per sample of the block.
    pub b_send_a: Seq<i64>,
}

impl DelayView {
    /// The number of samples that a block may hold.
    pub open spec fn block_capacity(self) -> int {
        self.dry.len() as int
    }

    /// The number of channels.
    pub open spec fn num_channels(self) -> int {
        self.line_a.buffers.len() as int
    }

    /// Both lines are well formed and have the same channels, and every
    /// automation array has room for the same block.
    pub open spec fn well_formed(self) -> bool {
        &&& self.line_a.well_formed()
        &&& self.line_b.well_formed()
        &&& self.line_a.buffers.len() == self.line_b.buffers.len()
        &&& self.line_a.delay_automation.len() == self.dry.len()
        &&& self.line_b.delay_automation.len() == self.dry.len()
        &&& self.in_send_a.len() == self.dry.len()
        &&& self.in_send_b.len() == self.dry.len()
        &&& self.a_send_out.len() == self.dry.len()
        &&& self.b_send_out.len() == self.dry.len()
        &&& self.a_send_b.len() == self.dry.len()
        &&& self.b_send_a.len() == self.dry.len()
    }

    /// The processor before it was set up: no channels, no room for a block.
    pub open spec fn unset() -> DelayView {
        DelayView {
            sample_rate: 0,
            line_a: LineView::fresh(0, 0, 0, 0),
            line_b: LineView::fresh(0, 0, 0, 0),
            in_send_a: Seq::empty(),
            in_send_b: Seq::empty(),
            a_send_out: Seq::empty(),
            b_send_out: Seq::empty(),
            dry: Seq::empty(),
            a_send_b: Seq::empty(),
            b_send_a: Seq::empty(),
        }
    }

    /// The processor as a successful `initialize` leaves it.
    pub open spec fn fresh(sample_rate: u32, num_channels: int, block_capacity: int) -> DelayView {
        let capacity = spec_buffer_capacity(sample_rate, MAX_DELAY_TIME_MS, GUARD_SAMPLES);
        let zeros = Seq::new(block_capacity as nat, |i: int| 0i64);
        DelayView {
            sample_rate,
            line_a: LineView::fresh(capacity, num_channels, block_capacity, sample_rate),
            line_b: LineView::fresh(capacity, num_channels, block_capacity, sample_rate),
            in_send_a: zeros,
            in_send_b: zeros,
            a_send_out: zeros,
            b_send_out: zeros,
            dry: zeros,
            a_send_b: zeros,
            b_send_a: zeros,
        }
    }

    /// The processor as `reset` leaves it: both lines cleared.
    pub open spec fn cleared(self) -> DelayView {
        DelayView { line_a: self.line_a.cleared(), line_b: self.line_b.cleared(), ..self }
    }

    /// The processor with the curves of a block of `frame_count` samples
    /// sampled into its automation arrays: knob positions become gains, delay
    /// times become lengths in samples at each line's sample rate.
    pub open spec fn sampled(self, curves: BlockCurves, frame_count: int) -> DelayView {
        DelayView {
            sample_rate: self.sample_rate,
            line_a: LineView {
                delay_automation: sampled_delay_times(
                    self.line_a.delay_automation,
                    curves.delay_a@,
                    frame_count,
                    self.line_a.sample_rate,
                    TimeUnit::Milliseconds,
                ),
                feedback_automation: sampled_knob_gains(
                    self.line_a.feedback_automation,
                    curves.fb_a@,
                    frame_count,
                ),
                ..self.line_a
            },
            line_b: LineView {
                delay_automation: sampled_delay_times(
                    self.line_b.delay_automation,
                    curves.delay_b@,
                    frame_count,
                    self.line_b.sample_rate,
                    TimeUnit::Milliseconds,
                ),
                feedback_automation: sampled_knob_gains(
                    self.line_b.feedback_automation,
                    curves.fb_b@,
                    frame_count,
                ),
                ..self.line_b
            },
            in_send_a: sampled_knob_gains(self.in_send_a, curves.in_send_a@, frame_count),
            in_send_b: sampled_knob_gains(self.in_send_b, curves.in_send_b@, frame_count),
            a_send_out: sampled_knob_gains(self.a_send_out, curves.a_send_out@, frame_count),
            b_send_out: sampled_knob_gains(self.b_send_out, curves.b_send_out@, frame_count),
            dry: sampled_knob_gains(self.dry, curves.in_send_out@, frame_count),
            a_send_b: sampled_knob_gains(self.a_send_b, curves.a_send_b@, frame_count),
            b_send_a: sampled_knob_gains(self.b_send_a, curves.b_send_a@, frame_count),
        }
    }

    /// The tap of line A in the frame of sample `index` on a channel.
    pub open spec fn tap_a(self, channel: int, index: int) -> i64 {
        self.line_a.automate(index).read(channel)
    }

    /// The tap of line B in the frame of sample `index` on a channel.
    pub open spec fn tap_b(self, channel: int, index: int) -> i64 {
        self.line_b.automate(index).read(channel)
    }

    /// What line A is fed in the frame of sample `index` on a channel.
    pub open spec fn into_a(self, channel: int, index: int, input: i64) -> i64 {
        injected(
            input,
            self.in_send_a[index],
            self.tap_b(channel, index),
            self.b_send_a[index],
            self.tap_a(channel, index),
            self.line_a.feedback_automation[index],
        )
    }

    /// What line B is fed in the frame of sample `index` on a channel.
    pub open spec fn into_b(self, channel: int, index: int, input: i64) -> i64 {
        injected(
            input,
            self.in_send_b[index],
            self.tap_a(channel, index),
            self.a_send_b[index],
            self.tap_b(channel, index),
            self.line_b.feedback_automation[index],
        )
    }

    /// The output sample of the frame of sample `index` on a channel.
    pub open spec fn frame_output(self, channel: int, index: int, input: i64) -> i64 {
        mixed(
            input,
            self.dry[index],
            self.tap_a(channel, index),
            self.a_send_out[index],
            self.tap_b(channel, index),
            self.b_send_out[index],
        )
    }

    /// The processor after the frame of sample `index` on a channel: the
    /// automation of the sample is in force on both lines, each line holds
    /// what it was fed, and both write pointers have moved on.
    pub open spec fn after_frame(self, channel: int, index: int, input: i64) -> DelayView {
        DelayView {
            line_a: self.line_a.automate(index).push(self.into_a(channel, index, input), channel),
            line_b: self.line_b.automate(index).push(self.into_b(channel, index, input), channel),
            ..self
        }
    }

    /// The processor after the first `count` frames of a channel.
    pub open spec fn after_frames(self, channel: int, input: Seq<i64>, count: int) -> DelayView
        decreases count,
    {
        if count <= 0 {
            self
        } else {
            self.after_frames(channel, input, count - 1).after_frame(
                channel,
                count - 1,
                input[count - 1],
            )
        }
    }

    /// The output of a channel: sample `i` is what the frame of sample `i`
    /// gives after the frames before it.
    pub open spec fn channel_output(self, channel: int, input: Seq<i64>) -> Seq<i64> {
        Seq::new(
            input.len(),
            |i: int| self.after_frames(channel, input, i).frame_output(channel, i, input[i]),
        )
    }

    /// The processor after the first `count` channels of a block, each run
    /// from its first sample to its last.
    pub open spec fn after_channels(self, buffer: Seq<Seq<i64>>, count: int) -> DelayView
        decreases count,
    {
        if count <= 0 {
            self
        } else {
            self.after_channels(buffer, count - 1).after_frames(
                count - 1,
                buffer[count - 1],
                buffer[count - 1].len() as int,
            )
        }
    }

    /// The output of a block: channel `c` is the output of that channel after
    /// the channels before it.
    pub open spec fn block_output(self, buffer: Seq<Seq<i64>>) -> Seq<Seq<i64>> {
        Seq::new(
            buffer.len(),
            |c: int| self.after_channels(buffer, c).channel_output(c, buffer[c]),
        )
    }

    /// A block fits the processor: no more channels than the lines have, no
    /// more samples than the automation arrays, as many samples in every
    /// channel as the block has frames, and a value in every curve for each.
    pub open spec fn accepts(
        self,
        buffer: Seq<Seq<i64>>,
        frame_count: int,
        curves: BlockCurves,
    ) -> bool {
        &&& buffer.len() <= self.num_channels()
        &&& frame_count <= self.block_capacity()
        &&& curves.covers(frame_count)
        &&& forall|c: int| 0 <= c < buffer.len() ==> (#[trigger] buffer[c]).len() == frame_count
    }
}

/// The samples of a block as sequences.
pub open spec fn block_view(buffer: Seq<Vec<i64>>) -> Seq<Seq<i64>> {
    Seq::new(buffer.len(), |c: int| buffer[c]@)
}

/// The two-line cross-feedback delay.
pub struct Delay {
    samplerate: u32,
    line_a: DelayLine,
    line_b: DelayLine,
    in_send_a_automation_samples: Vec<i64>,
    in_send_b_automation_samples: Vec<i64>,
    a_send_out_automation_samples: Vec<i64>,
    b_send_out_automation_samples: Vec<i64>,
    dry_automation_samples: Vec<i64>,
    a_send_b_automation_samples: Vec<i64>,
    b_send_a_automation_samples: Vec<i64>,
}

impl View for Delay {
    type V = DelayView;

    closed spec fn view(&self) -> DelayView {
        DelayView {
            sample_rate: self.samplerate,
            line_a: self.line_a@,
            line_b: self.line_b@,
            in_send_a: self.in_send_a_automation_samples@,
            in_send_b: self.in_send_b_automation_samples@,
            a_send_out: self.a_send_out_automation_samples@,
            b_send_out: self.b_send_out_automation_samples@,
            dry: self.dry_automation_samples@,
            a_send_b: self.a_send_b_automation_samples@,
            b_send_a: self.b_send_a_automation_samples@,
        }
    }
}

impl Default for Delay {
    /// A processor that was not set up yet.
    fn default() -> (delay: Self)
        ensures
            delay@ == DelayView::unset(),
            delay.wf(),
    {
        let delay = Delay {
            samplerate: 0,
            line_a: DelayLine::default(),
            line_b: DelayLine::default(),
            in_send_a_automation_samples: Vec::new(),
            in_send_b_automation_samples: Vec::new(),
            a_send_out_automation_samples: Vec::new(),
            b_send_out_automation_samples: Vec::new(),
            dry_automation_samples: Vec::new(),
            a_send_b_automation_samples: Vec::new(),
            b_send_a_automation_samples: Vec::new(),
        };
        assert(delay@ =~~= DelayView::unset());
        delay
    }
}

/// Tells on which configurations `initialize` succeeds: a sample rate and a
/// channel count above zero, and a ring buffer that fits the machine.
pub open spec fn can_initialize(sample_rate: u32, channel_count: u32) -> bool {
    &&& sample_rate != 0
    &&& channel_count != 0
    &&& spec_buffer_capacity(sample_rate, MAX_DELAY_TIME_MS, GUARD_SAMPLES) <= usize::MAX
}

impl Delay {
    /// The processor's invariant, stated over its model.
    pub open spec fn wf(&self) -> bool {
        self@.well_formed()
    }

    /// Sets the processor up for a sample rate, a largest block and a number
    /// of channels: both lines get silent ring buffers for the longest delay
    /// and the guard, and every automation array gets room for the largest
    /// block. A sample rate or a channel count of zero is refused, and so is a
    /// ring buffer too long for the machine; the processor then stays as it
    /// was.
    pub fn initialize(
        &mut self,
        sample_rate: u32,
        max_block_size: u32,
        channel_count: u32,
    ) -> (ready: bool)
        ensures
            ready == can_initialize(sample_rate, channel_count),
            ready ==> final(self)@ == DelayView::fresh(
                sample_rate,
                channel_count as int,
                max_block_size as int,
            ) && final(self).wf(),
            !ready ==> final(self)@ == old(self)@,
    {
        if sample_rate == 0 || channel_count == 0 {
            return false;
        }
        let capacity: usize = match buffer_capacity(sample_rate, MAX_DELAY_TIME_MS, GUARD_SAMPLES) {
            Some(capacity) => capacity,
            None => {
                return false;
            },
        };
        let num_channels: usize = channel_count as usize;
        let block_capacity: usize = max_block_size as usize;
        self.samplerate = sample_rate;
        self.line_a.init(capacity, num_channels, block_capacity, sample_rate);
        self.line_b.init(capacity, num_channels, block_capacity, sample_rate);
        self.in_send_a_automation_samples = vec![0i64; block_capacity];
        self.in_send_b_automation_samples = vec![0i64; block_capacity];
        self.a_send_out_automation_samples = vec![0i64; block_capacity];
        self.b_send_out_automation_samples = vec![0i64; block_capacity];
        self.dry_automation_samples = vec![0i64; block_capacity];
        self.a_send_b_automation_samples = vec![0i64; block_capacity];
        self.b_send_a_automation_samples = vec![0i64; block_capacity];
        proof {
            assert(self@ =~~= DelayView::fresh(
                sample_rate,
                channel_count as int,
                max_block_size as int,
            ));
        }
        true
    }

    /// Silences both lines. Nothing is allocated and no length changes.
    pub fn reset(&mut self)
        requires
            old(self).wf(),
        ensures
            final(self)@ == old(self)@.cleared(),
            final(self).wf(),
    {
        self.line_a.reset();
        self.line_b.reset();
    }

    /// The number of channels that the processor was set up for.
    pub fn num_channels(&self) -> (count: usize)
        ensures
            count == self@.line_a.buffers.len(),
    {
        self.line_a.num_channels()
    }

    /// The number of samples that a block may hold.
    pub fn block_capacity(&self) -> (count: usize)
        ensures
            count == self@.dry.len(),
    {
        self.dry_automation_samples.len()
    }

    /// The length of the ring buffers.
    pub fn capacity(&self) -> (capacity: usize)
        ensures
            capacity == self@.line_a.capacity,
    {
        self.line_a.capacity()
    }

    /// The sample rate that the processor was set up for.
    pub fn sample_rate(&self) -> (rate: u32)
        ensures
            rate == self@.sample_rate,
    {
        self.samplerate
    }

    /// Samples the curves of a block into the automation arrays of the
    /// processor and of its lines.
    pub fn sample_automation(&mut self, curves: &BlockCurves, frame_count: usize)
        requires
            old(self).wf(),
            frame_count <= old(self)@.block_capacity(),
            curves.covers(frame_count as int),
        ensures
            final(self)@ == old(self)@.sampled(*curves, frame_count as int),
            final(self).wf(),
    {
        sample_knob_gains(&mut self.a_send_b_automation_samples, &curves.a_send_b, frame_count);
        sample_knob_gains(&mut self.a_send_out_automation_samples, &curves.a_send_out, frame_count);
        sample_knob_gains(&mut self.b_send_a_automation_samples, &curves.b_send_a, frame_count);
        sample_knob_gains(&mut self.b_send_out_automation_samples, &curves.b_send_out, frame_count);
        self.line_a.load_delay_automation(&curves.delay_a, frame_count, TimeUnit::Milliseconds);
        self.line_b.load_delay_automation(&curves.delay_b, frame_count, TimeUnit::Milliseconds);
        self.line_a.load_feedback_automation(&curves.fb_a, frame_count);
        self.line_b.load_feedback_automation(&curves.fb_b, frame_count);
        sample_knob_gains(&mut self.in_send_a_automation_samples, &curves.in_send_a, frame_count);
        sample_knob_gains(&mut self.in_send_b_automation_samples, &curves.in_send_b, frame_count);
        sample_knob_gains(&mut self.dry_automation_samples, &curves.in_send_out, frame_count);
        proof {
            assert(self@ =~~= old(self)@.sampled(*curves, frame_count as int));
        }
    }

    /// Runs one frame on one channel: puts the automation of sample `index`
    /// in force, reads both taps, feeds each line its input, the other line's
    /// tap and its own, and returns the dry input mixed with both taps.
    pub fn process_frame(&mut self, channel: usize, index: usize, input: i64) -> (output: i64)
        requires
            old(self).wf(),
            channel < old(self)@.num_channels(),
            index < old(self)@.block_capacity(),
        ensures
            output == old(self)@.frame_output(channel as int, index as int, input),
            final(self)@ == old(self)@.after_frame(channel as int, index as int, input),
            final(self).wf(),
    {
        self.line_a.automate(index);
        self.line_b.automate(index);
        let value_to_play_a: i64 = self.line_a.read(channel);
        let value_to_play_b: i64 = self.line_b.read(channel);
        let into_a: i64 = inject(
            input,
            self.in_send_a_automation_samples[index],
            value_to_play_b,
            self.b_send_a_automation_samples[index],
            value_to_play_a,
            self.line_a.feedback(),
        );
        let into_b: i64 = inject(
            input,
            self.in_send_b_automation_samples[index],
            value_to_play_a,
            self.a_send_b_automation_samples[index],
            value_to_play_b,
            self.line_b.feedback(),
        );
        self.line_a.write(into_a, channel);
        self.line_b.write(into_b, channel);
        let output: i64 = mix(
            input,
            self.dry_automation_samples[index],
            value_to_play_a,
            self.a_send_out_automation_samples[index],
            value_to_play_b,
            self.b_send_out_automation_samples[index],
        );
        self.line_a.advance(channel);
        self.line_b.advance(channel);
        proof {
            assert(self@ =~~= old(self)@.after_frame(channel as int, index as int, input));
        }
        output
    }

    /// Tells whether a block fits the processor.
    pub fn fits(
        &self,
        buffer: &Vec<Vec<i64>>,
        frame_count: usize,
        curves: &BlockCurves,
    ) -> (fitting: bool)
        requires
            self.wf(),
        ensures
            fitting == self@.accepts(block_view(buffer@), frame_count as int, *curves),
    {
        if buffer.len() > self.num_channels() || frame_count > self.block_capacity()
            || !curves.has_samples(frame_count) {
            return false;
        }
        let mut channel: usize = 0;
        while channel < buffer.len()
            invariant
                channel <= buffer.len(),
                forall|c: int| 0 <= c < channel ==> (#[trigger] buffer[c]).len() == frame_count,
            decreases buffer.len() - channel,
        {
            if buffer[channel].len() != frame_count {
                proof {
                    assert(block_view(buffer@)[channel as int].len() != frame_count);
                }
                return false;
            }
            channel += 1;
        }
        proof {
            assert forall|c: int| 0 <= c < block_view(buffer@).len() implies (#[trigger] block_view(
                buffer@,
            )[c]).len() == frame_count by {
                assert(buffer[c].len() == frame_count);
            }
        }
        true
    }

    /// Processes one block in place.
    ///
    /// A block that does not fit the processor is refused with `Fatal` and
    /// nothing changes. Otherwise the curves are sampled into the automation
    /// arrays, and every channel is run frame by frame: sample `i` of a
    /// channel is replaced by the output of frame `i`, and both lines keep
    /// what the frames wrote. Nothing is allocated.
    pub fn process(
        &mut self,
        buffer: &mut Vec<Vec<i64>>,
        frame_count: usize,
        curves: &BlockCurves,
    ) -> (status: ProcessStatus)
        requires
            old(self).wf(),
        ensures
            status == ProcessStatus::Normal <==> old(self)@.accepts(
                block_view(old(buffer)@),
                frame_count as int,
                *curves,
            ),
            status == ProcessStatus::Fatal ==> final(self)@ == old(self)@ && final(buffer)@ == old(
                buffer,
            )@,
            status == ProcessStatus::Normal ==> final(self)@ == old(self)@.sampled(
                *curves,
                frame_count as int,
            ).after_channels(block_view(old(buffer)@), old(buffer)@.len() as int),
            status == ProcessStatus::Normal ==> block_view(final(buffer)@) == old(self)@.sampled(
                *curves,
                frame_count as int,
            ).block_output(block_view(old(buffer)@)),
            final(self).wf(),
    {
        if !self.fits(buffer, frame_count, curves) {
            return ProcessStatus::Fatal;
        }
        self.sample_automation(curves, frame_count);
        let ghost start: DelayView = self@;
        let ghost input: Seq<Seq<i64>> = block_view(buffer@);
        let num_channels: usize = buffer.len();
        let mut channel_idx: usize = 0;
        while channel_idx < num_channels
            invariant
                channel_idx <= num_channels,
                num_channels == buffer.len(),
                num_channels == input.len(),
                num_channels <= start.num_channels(),
                frame_count <= start.block_capacity(),
                start.well_formed(),
                self.wf(),
                self@ == start.after_channels(input, channel_idx as int),
                forall|c: int| 0 <= c < num_channels ==> (#[trigger] input[c]).len() == frame_count,
                forall|c: int|
                    0 <= c < channel_idx ==> (#[trigger] buffer[c])@ == start.after_channels(
                        input,
                        c,
                    ).channel_output(c, input[c]),
                forall|c: int| channel_idx <= c < num_channels ==> (#[trigger] buffer[c])@ == input[c],
            decreases num_channels - channel_idx,
        {
            let ghost before: DelayView = self@;
            let ghost samples: Seq<i64> = input[channel_idx as int];
            proof {
                lemma_run_keeps_shape(start, input, channel_idx as int);
            }
            let mut sample_idx: usize = 0;
            while sample_idx < frame_count
                invariant
                    sample_idx <= frame_count,
                    channel_idx < num_channels,
                    num_channels == buffer.len(),
                    num_channels == input.len(),
                    samples == input[channel_idx as int],
                    samples.len() == frame_count,
                    before.well_formed(),
                    channel_idx < before.num_channels(),
                    frame_count <= before.block_capacity(),
                    self.wf(),
                    self@ == before.after_frames(channel_idx as int, samples, sample_idx as int),
                    buffer[channel_idx as int].len() == frame_count,
                    forall|i: int|
                        0 <= i < sample_idx ==> (#[trigger] buffer[channel_idx as int][i])
                            == before.after_frames(channel_idx as int, samples, i).frame_output(
                            channel_idx as int,
                            i,
                            samples[i],
                        ),
                    forall|i: int|
                        sample_idx <= i < frame_count ==> (#[trigger] buffer[channel_idx as int][i])
                            == samples[i],
                    forall|c: int|
                        0 <= c < channel_idx ==> (#[trigger] buffer[c])@ == start.after_channels(
                            input,
                            c,
                        ).channel_output(c, input[c]),
                    forall|c: int|
                        channel_idx < c < num_channels ==> (#[trigger] buffer[c])@ == input[c],
                decreases frame_count - sample_idx,
            {
                proof {
                    lemma_frames_keep_shape(
                        before,
                        channel_idx as int,
                        samples,
                        sample_idx as int,
                    );
                }
                let sample: i64 = buffer[channel_idx][sample_idx];
                let output: i64 = self.process_frame(channel_idx, sample_idx, sample);
                buffer[channel_idx][sample_idx] = output;
                sample_idx += 1;
            }
            proof {
                assert(buffer[channel_idx as int]@ =~= before.channel_output(
                    channel_idx as int,
                    samples,
                ));
            }
            channel_idx += 1;
        }
        proof {
            assert(block_view(buffer@) =~= start.block_output(input));
        }
        ProcessStatus::Normal
    }
}

/// A frame keeps the processor well formed and leaves the number of channels,
/// the room for a block and the automation as they were.
pub proof fn lemma_frame_keeps_shape(delay: DelayView, channel: int, index: int, input: i64)
    requires
        delay.well_formed(),
        0 <= channel < delay.num_channels(),
    ensures
        delay.after_frame(channel, index, input).well_formed(),
        delay.after_frame(channel, index, input).num_channels() == delay.num_channels(),
        delay.after_frame(channel, index, input).block_capacity() == delay.block_capacity(),
{
    let a = delay.line_a.automate(index);
    let b = delay.line_b.automate(index);
    let into_a = delay.into_a(channel, index, input);
    let into_b = delay.into_b(channel, index, input);
    lemma_write_keeps_form(a, into_a, channel);
    lemma_advance_keeps_form(a.write(into_a, channel), channel);
    lemma_write_keeps_form(b, into_b, channel);
    lemma_advance_keeps_form(b.write(into_b, channel), channel);
}

/// Any number of frames keeps the processor well formed and its shape as it
/// was.
pub proof fn lemma_frames_keep_shape(delay: DelayView, channel: int, input: Seq<i64>, count: int)
    requires
        delay.well_formed(),
        0 <= channel < delay.num_channels(),
    ensures
        delay.after_frames(channel, input, count).well_formed(),
        delay.after_frames(channel, input, count).num_channels() == delay.num_channels(),
        delay.after_frames(channel, input, count).block_capacity() == delay.block_capacity(),
    decreases count,
{
    if count > 0 {
        lemma_frames_keep_shape(delay, channel, input, count - 1);
        lemma_frame_keeps_shape(
            delay.after_frames(channel, input, count - 1),
            channel,
            count - 1,
            input[count - 1],
        );
    }
}

/// Any number of channels keeps the processor well formed and its shape as it
/// was.
pub proof fn lemma_run_keeps_shape(delay: DelayView, buffer: Seq<Seq<i64>>, count: int)
    requires
        delay.well_formed(),
        count <= buffer.len() <= delay.num_channels(),
    ensures
        delay.after_channels(buffer, count).well_formed(),
        delay.after_channels(buffer, count).num_channels() == delay.num_channels(),
        delay.after_channels(buffer, count).block_capacity() == delay.block_capacity(),
    decreases count,
{
    if count > 0 {
        lemma_run_keeps_shape(delay, buffer, count - 1);
        lemma_frames_keep_shape(
            delay.after_channels(buffer, count - 1),
            count - 1,
            buffer[count - 1],
            buffer[count - 1].len() as int,
        );
    }
}

/// A closed cross send cuts a line off from the other: what the line is fed
/// is the same whatever the other line plays. With its feedback closed too,
/// the line is fed the input through its input send and nothing else.
pub proof fn lemma_closed_cross_send(
    input: i64,
    input_send: i64,
    other_tap: i64,
    another_tap: i64,
    own_tap: i64,
    feedback: i64,
)
    ensures
        injected(input, input_send, other_tap, 0, own_tap, feedback) == injected(
            input,
            input_send,
            another_tap,
            0,
            own_tap,
            feedback,
        ),
        injected(input, input_send, other_tap, 0, own_tap, 0) == saturated(
            scaled(input as int, input_send as int),
        ),
{
    lemma_scaled_by_zero(other_tap as int);
    lemma_scaled_by_zero(another_tap as int);
    lemma_scaled_by_zero(own_tap as int);
}

/// A line that is fed neither the input nor the other line stays silent once
/// it is: with one line shut off like this, the processor is a single delay
/// line.
pub proof fn lemma_unfed_line_stays_silent(input: i64, other_tap: i64, feedback: i64)
    ensures
        injected(input, 0, other_tap, 0, 0, feedback) == 0,
{
    lemma_scaled_by_zero(input as int);
    lemma_scaled_by_zero(other_tap as int);
    lemma_scaled_by_zero(feedback as int);
}

/// A line that is silent or whose output send is closed adds nothing to the
/// output.
pub proof fn lemma_mixed_without_line_b(
    input: i64,
    dry: i64,
    tap_a: i64,
    a_send_out: i64,
    tap_b: i64,
    b_send_out: i64,
)
    ensures
        mixed(input, dry, tap_a, a_send_out, 0, b_send_out) == saturated(
            scaled(input as int, dry as int) + scaled(tap_a as int, a_send_out as int),
        ),
        mixed(input, dry, tap_a, a_send_out, tap_b, 0) == saturated(
            scaled(input as int, dry as int) + scaled(tap_a as int, a_send_out as int),
        ),
{
    lemma_scaled_by_zero(b_send_out as int);
    lemma_scaled_by_zero(tap_b as int);
}

/// The ring buffer is longer than any delay that a line can be set to: for a
/// delay time up to the longest, the whole delay in samples stays below the
/// capacity by the guard, so both taps lie inside one round of the buffer.
pub proof fn lemma_delay_within_capacity(time: u64, sample_rate: u32)
    requires
        time <= MAX_DELAY_TIME_MS * UNIT,
    ensures
        whole_delay(spec_time_to_samples(time, sample_rate, TimeUnit::Milliseconds))
            + GUARD_SAMPLES <= spec_buffer_capacity(sample_rate, MAX_DELAY_TIME_MS, GUARD_SAMPLES),
{
    let unit: int = UNIT as int;
    let longest: int = MAX_DELAY_TIME_MS as int;
    let rate: int = sample_rate as int;
    let ceiling: int = (rate * longest + 999) / 1000;
    let exact: int = (time * rate) / 1000;
    assert(time * rate <= longest * unit * rate) by (nonlinear_arith)
        requires
            0 <= time <= longest * unit,
            0 <= rate,
    ;
    assert(longest * unit * rate == (rate * longest) * unit) by (nonlinear_arith);
    assert(rate * longest <= 1000 * ceiling);
    assert((rate * longest) * unit <= 1000 * (ceiling * unit)) by (nonlinear_arith)
        requires
            rate * longest <= 1000 * ceiling,
            unit > 0,
    ;
    assert(exact <= ceiling * unit);
    assert(0 <= rate * longest <= 0xffff_ffff * 16000) by (nonlinear_arith)
        requires
            0 <= rate <= 0xffff_ffff,
            longest == 16000,
    ;
    assert(ceiling * unit <= 0x1_0000_0000 * 16 * unit) by (nonlinear_arith)
        requires
            0 <= ceiling <= 0x1_0000_0000 * 16,
            unit > 0,
    ;
    assert(0 <= time * rate) by (nonlinear_arith)
        requires
            0 <= time,
            0 <= rate,
    ;
    assert((ceiling * unit + unit - 1) / unit == ceiling) by (nonlinear_arith)
        requires
            unit == 0x1_0000_0000,
    ;
}

} // verus!
