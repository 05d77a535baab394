//! What comes out of the processor over a run of frames: the laws that tie the
//! taps of a frame to what the lines were fed in earlier frames, and the
//! responses to an impulse that follow from them.
//!
//! A delay of a whole number of samples reads the second tap, one slot nearer
//! to the write pointer than the delay says. A line that is set to a delay of
//! `n` samples therefore plays what it was fed `n - 1` frames ago, and every
//! response below is stated with that period.

use crate::delay::{injected, lemma_closed_cross_send, lemma_mixed_without_line_b, DelayView};
use crate::delay_line::{
    impulse, lemma_push_all_history, lemma_push_all_keeps_form, lemma_whole_delay_reads_slot,
};
use crate::fixed::{lemma_scaled_by_one, lemma_scaled_by_zero, saturated, scaled, ONE, UNIT};
use vstd::arithmetic::div_mod::lemma_mod_bound;
use vstd::prelude::*;

verus! {

impl DelayView {
    /// What line A is fed in frame `frame` of a run over `input`.
    pub open spec fn fed_a(self, channel: int, input: Seq<i64>, frame: int) -> i64 {
        self.after_frames(channel, input, frame).into_a(channel, frame, input[frame])
    }

    /// What line B is fed in frame `frame` of a run over `input`.
    pub open spec fn fed_b(self, channel: int, input: Seq<i64>, frame: int) -> i64 {
        self.after_frames(channel, input, frame).into_b(channel, frame, input[frame])
    }

    /// What line A plays in frame `frame` of a run over `input`.
    pub open spec fn played_a(self, channel: int, input: Seq<i64>, frame: int) -> i64 {
        self.after_frames(channel, input, frame).tap_a(channel, frame)
    }

    /// What line B plays in frame `frame` of a run over `input`.
    pub open spec fn played_b(self, channel: int, input: Seq<i64>, frame: int) -> i64 {
        self.after_frames(channel, input, frame).tap_b(channel, frame)
    }

    /// The output sample of frame `frame` of a run over `input`.
    pub open spec fn output(self, channel: int, input: Seq<i64>, frame: int) -> i64 {
        self.after_frames(channel, input, frame).frame_output(channel, frame, input[frame])
    }

    /// All that line A was fed in the first `count` frames of a run.
    pub open spec fn feed_a(self, channel: int, input: Seq<i64>, count: int) -> Seq<i64> {
        Seq::new(count as nat, |i: int| self.fed_a(channel, input, i))
    }

    /// All that line B was fed in the first `count` frames of a run.
    pub open spec fn feed_b(self, channel: int, input: Seq<i64>, count: int) -> Seq<i64> {
        Seq::new(count as nat, |i: int| self.fed_b(channel, input, i))
    }

    /// In the frame of sample `index` line A takes the input at the level
    /// `send`, gives its own tap back at the level `feedback`, takes nothing
    /// from line B, and is set to a delay of `delay_samples` whole samples.
    pub open spec fn runs_line_a(
        self,
        index: int,
        send: i64,
        feedback: i64,
        delay_samples: int,
    ) -> bool {
        &&& self.in_send_a[index] == send
        &&& self.b_send_a[index] == 0
        &&& self.line_a.feedback_automation[index] == feedback
        &&& self.line_a.delay_automation[index] == delay_samples * UNIT
    }

    /// In the frame of sample `index` line B takes nothing from the input,
    /// takes the tap of line A at the level `cross`, gives nothing back to
    /// itself, and is set to a delay of `delay_samples` whole samples.
    pub open spec fn runs_line_b_from_a(self, index: int, cross: i64, delay_samples: int) -> bool {
        &&& self.in_send_b[index] == 0
        &&& self.a_send_b[index] == cross
        &&& self.line_b.feedback_automation[index] == 0
        &&& self.line_b.delay_automation[index] == delay_samples * UNIT
    }
}

/// The echoes of an impulse in a line with feedback: the value in frame 0,
/// silence until one period has passed, and from then on what the line held
/// one period earlier, through the feedback gain.
pub open spec fn echo(value: i64, gain: i64, period: int, frame: int) -> i64
    decreases frame,
{
    if period <= 0 || frame < 0 {
        0
    } else if frame == 0 {
        value
    } else if frame < period {
        0
    } else {
        saturated(scaled(echo(value, gain, period, frame - period) as int, gain as int))
    }
}

/// A run of frames changes what the lines hold and nothing else: the gains,
/// the automation of both lines and the shape of the processor stay.
pub proof fn lemma_frames_keep_settings(
    delay: DelayView,
    channel: int,
    input: Seq<i64>,
    count: int,
)
    ensures
        delay.after_frames(channel, input, count).in_send_a == delay.in_send_a,
        delay.after_frames(channel, input, count).in_send_b == delay.in_send_b,
        delay.after_frames(channel, input, count).a_send_out == delay.a_send_out,
        delay.after_frames(channel, input, count).b_send_out == delay.b_send_out,
        delay.after_frames(channel, input, count).dry == delay.dry,
        delay.after_frames(channel, input, count).a_send_b == delay.a_send_b,
        delay.after_frames(channel, input, count).b_send_a == delay.b_send_a,
        delay.after_frames(channel, input, count).line_a.capacity == delay.line_a.capacity,
        delay.after_frames(channel, input, count).line_b.capacity == delay.line_b.capacity,
        delay.after_frames(channel, input, count).line_a.delay_automation
            == delay.line_a.delay_automation,
        delay.after_frames(channel, input, count).line_b.delay_automation
            == delay.line_b.delay_automation,
        delay.after_frames(channel, input, count).line_a.feedback_automation
            == delay.line_a.feedback_automation,
        delay.after_frames(channel, input, count).line_b.feedback_automation
            == delay.line_b.feedback_automation,
    decreases count,
{
    if count > 0 {
        lemma_frames_keep_settings(delay, channel, input, count - 1);
    }
}

/// Each line holds what it was fed: after a run of frames the buffers and the
/// write pointers of a line are those of the line as it stood before the run,
/// pushed the values that the frames fed it, in turn.
pub proof fn lemma_lines_hold_their_feed(
    delay: DelayView,
    channel: int,
    input: Seq<i64>,
    count: int,
)
    requires
        delay.well_formed(),
        0 <= channel < delay.num_channels(),
        0 <= count,
    ensures
        delay.after_frames(channel, input, count).line_a.buffers == delay.line_a.push_all(
            delay.feed_a(channel, input, count),
            channel,
        ).buffers,
        delay.after_frames(channel, input, count).line_a.write_pointers == delay.line_a.push_all(
            delay.feed_a(channel, input, count),
            channel,
        ).write_pointers,
        delay.after_frames(channel, input, count).line_b.buffers == delay.line_b.push_all(
            delay.feed_b(channel, input, count),
            channel,
        ).buffers,
        delay.after_frames(channel, input, count).line_b.write_pointers == delay.line_b.push_all(
            delay.feed_b(channel, input, count),
            channel,
        ).write_pointers,
    decreases count,
{
    if count > 0 {
        lemma_lines_hold_their_feed(delay, channel, input, count - 1);
        lemma_frames_keep_settings(delay, channel, input, count - 1);
        let before = delay.after_frames(channel, input, count - 1);
        let after = delay.after_frames(channel, input, count);
        let feed_a = delay.feed_a(channel, input, count);
        let feed_b = delay.feed_b(channel, input, count);
        assert(feed_a.drop_last() =~= delay.feed_a(channel, input, count - 1));
        assert(feed_b.drop_last() =~= delay.feed_b(channel, input, count - 1));
        assert(feed_a.last() == before.into_a(channel, count - 1, input[count - 1]));
        assert(feed_b.last() == before.into_b(channel, count - 1, input[count - 1]));
        lemma_push_all_keeps_form(delay.line_a, feed_a.drop_last(), channel);
        lemma_push_all_keeps_form(delay.line_b, feed_b.drop_last(), channel);
        let pushed_a = delay.line_a.push_all(feed_a, channel);
        let pushed_b = delay.line_b.push_all(feed_b, channel);
        assert(after.line_a.write_pointers =~= pushed_a.write_pointers);
        assert(after.line_a.buffers =~= pushed_a.buffers);
        assert(after.line_b.write_pointers =~= pushed_b.write_pointers);
        assert(after.line_b.buffers =~= pushed_b.buffers);
    } else {
        assert(delay.feed_a(channel, input, count) =~= Seq::<i64>::empty());
        assert(delay.feed_b(channel, input, count) =~= Seq::<i64>::empty());
    }
}

/// Line A plays what it was fed one period ago.
///
/// In a frame where line A is set to a delay of `delay_samples` whole samples,
/// 2 or more and no more than the capacity, its tap is what the line was fed
/// `delay_samples - 1` frames earlier in the run. In the frames before one
/// period has passed, the tap is what the line held before the run.
pub proof fn lemma_line_a_plays_its_feed(
    delay: DelayView,
    channel: int,
    input: Seq<i64>,
    frame: int,
    delay_samples: int,
)
    requires
        delay.well_formed(),
        0 <= channel < delay.num_channels(),
        0 <= frame,
        2 <= delay_samples <= delay.line_a.capacity,
        delay_samples <= 0xffff_ffff,
        delay.line_a.delay_automation[frame] == delay_samples * UNIT,
    ensures
        delay.played_a(channel, input, frame) == (if frame >= delay_samples - 1 {
            delay.fed_a(channel, input, frame - (delay_samples - 1))
        } else {
            delay.line_a.buffers[channel][delay.line_a.slot(channel, delay_samples - 1 - frame)]
        }),
{
    let before = delay.after_frames(channel, input, frame);
    let feed = delay.feed_a(channel, input, frame);
    let pushed = delay.line_a.push_all(feed, channel);
    lemma_lines_hold_their_feed(delay, channel, input, frame);
    lemma_frames_keep_settings(delay, channel, input, frame);
    lemma_push_all_keeps_form(delay.line_a, feed, channel);
    lemma_push_all_history(delay.line_a, feed, channel, delay_samples - 1);
    let reading = before.line_a.automate(frame);
    lemma_whole_delay_reads_slot(reading, channel, delay_samples);
    assert(reading.slot(channel, delay_samples - 1) == pushed.slot(channel, delay_samples - 1));
}

/// Line B plays what it was fed one period ago, as line A does.
pub proof fn lemma_line_b_plays_its_feed(
    delay: DelayView,
    channel: int,
    input: Seq<i64>,
    frame: int,
    delay_samples: int,
)
    requires
        delay.well_formed(),
        0 <= channel < delay.num_channels(),
        0 <= frame,
        2 <= delay_samples <= delay.line_b.capacity,
        delay_samples <= 0xffff_ffff,
        delay.line_b.delay_automation[frame] == delay_samples * UNIT,
    ensures
        delay.played_b(channel, input, frame) == (if frame >= delay_samples - 1 {
            delay.fed_b(channel, input, frame - (delay_samples - 1))
        } else {
            delay.line_b.buffers[channel][delay.line_b.slot(channel, delay_samples - 1 - frame)]
        }),
{
    let before = delay.after_frames(channel, input, frame);
    let feed = delay.feed_b(channel, input, frame);
    let pushed = delay.line_b.push_all(feed, channel);
    lemma_lines_hold_their_feed(delay, channel, input, frame);
    lemma_frames_keep_settings(delay, channel, input, frame);
    lemma_push_all_keeps_form(delay.line_b, feed, channel);
    lemma_push_all_history(delay.line_b, feed, channel, delay_samples - 1);
    let reading = before.line_b.automate(frame);
    lemma_whole_delay_reads_slot(reading, channel, delay_samples);
    assert(reading.slot(channel, delay_samples - 1) == pushed.slot(channel, delay_samples - 1));
}

/// Feedback decay: the response of line A to an impulse.
///
/// Line A of a silent channel takes the input at full level and takes nothing
/// from line B. It is set to a delay of `delay_samples` whole samples and gives
/// its tap back to itself at the level `gain`. The input is one value and
/// silence after it. Then the line is fed the echoes of the impulse: the value
/// in frame 0, and one period of `delay_samples - 1` frames later what it was
/// fed before, through the gain, again and again. The line plays each echo one
/// period after it was fed: the value after one period, the value through the
/// gain after two, through the gain twice after three, and silence in every
/// frame between.
pub proof fn lemma_feedback_echo(
    delay: DelayView,
    channel: int,
    value: i64,
    zeros: nat,
    gain: i64,
    frame: int,
    delay_samples: int,
)
    requires
        delay.well_formed(),
        0 <= channel < delay.num_channels(),
        delay.line_a.is_silent(channel),
        0 <= frame <= zeros,
        2 <= delay_samples <= delay.line_a.capacity,
        delay_samples <= 0xffff_ffff,
        forall|i: int|
            0 <= i <= frame ==> #[trigger] delay.runs_line_a(i, ONE, gain, delay_samples),
    ensures
        delay.fed_a(channel, impulse(value, zeros), frame) == echo(
            value,
            gain,
            delay_samples - 1,
            frame,
        ),
        delay.played_a(channel, impulse(value, zeros), frame) == echo(
            value,
            gain,
            delay_samples - 1,
            frame - (delay_samples - 1),
        ),
    decreases frame,
{
    let input = impulse(value, zeros);
    let period = delay_samples - 1;
    let before = delay.after_frames(channel, input, frame);
    let played = delay.played_a(channel, input, frame);
    assert(delay.runs_line_a(frame, ONE, gain, delay_samples));
    lemma_frames_keep_settings(delay, channel, input, frame);
    lemma_line_a_plays_its_feed(delay, channel, input, frame, delay_samples);
    if frame >= period {
        lemma_feedback_echo(delay, channel, value, zeros, gain, frame - period, delay_samples);
    } else {
        lemma_mod_bound(delay.line_a.write_pointers[channel] - (period - frame), delay.line_a.capacity);
        assert(delay.line_a.buffers[channel].len() == delay.line_a.capacity);
        assert(played == 0);
    }
    assert(played == echo(value, gain, period, frame - period));
    lemma_scaled_by_one(input[frame] as int);
    lemma_scaled_by_zero(before.tap_b(channel, frame) as int);
    lemma_scaled_by_zero(gain as int);
    assert(delay.fed_a(channel, input, frame) == saturated(
        input[frame] + scaled(played as int, gain as int),
    ));
}

/// The impulse response of the processor through line A alone.
///
/// Line A of a silent channel is set to a delay of `delay_samples` whole
/// samples, 2 or more and no more than the capacity. Its input send and its
/// output send are fully open; its feedback, the send from line B, the output
/// send of line B and the dry path are closed. The input is one value and
/// silence after it. Then frame `delay_samples - 1` of the run gives the value
/// and every other frame gives silence: the impulse comes out one frame before
/// the delay has passed, because a delay without a fractional part reads the
/// second tap.
pub proof fn lemma_processor_impulse_response(
    delay: DelayView,
    channel: int,
    value: i64,
    zeros: nat,
    frame: int,
    delay_samples: int,
)
    requires
        delay.well_formed(),
        0 <= channel < delay.num_channels(),
        delay.line_a.is_silent(channel),
        0 <= frame <= zeros,
        2 <= delay_samples <= delay.line_a.capacity,
        delay_samples <= 0xffff_ffff,
        forall|i: int| 0 <= i <= frame ==> #[trigger] delay.runs_line_a(i, ONE, 0, delay_samples),
        delay.dry[frame] == 0,
        delay.a_send_out[frame] == ONE,
        delay.b_send_out[frame] == 0,
    ensures
        delay.output(channel, impulse(value, zeros), frame) == (if frame == delay_samples - 1 {
            value
        } else {
            0
        }),
{
    let input = impulse(value, zeros);
    let period = delay_samples - 1;
    let before = delay.after_frames(channel, input, frame);
    let played = delay.played_a(channel, input, frame);
    lemma_feedback_echo(delay, channel, value, zeros, 0, frame, delay_samples);
    lemma_frames_keep_settings(delay, channel, input, frame);
    if frame - period >= period {
        lemma_scaled_by_zero(echo(value, 0, period, frame - period - period) as int);
    }
    assert(played == (if frame == period {
        value
    } else {
        0
    }));
    lemma_mixed_without_line_b(input[frame], 0, played, ONE, before.tap_b(channel, frame), 0);
    lemma_scaled_by_zero(input[frame] as int);
    lemma_scaled_by_one(played as int);
}

/// Line A is closed to line B: with the send from line B and its own feedback
/// closed, what line A plays is the input of one period ago through its input
/// send, whatever line B holds, plays or is fed, in every frame and for every
/// input. In the frames before one period has passed it plays what it held
/// before the run.
pub proof fn lemma_line_a_closed_to_line_b(
    delay: DelayView,
    channel: int,
    input: Seq<i64>,
    send: i64,
    frame: int,
    delay_samples: int,
)
    requires
        delay.well_formed(),
        0 <= channel < delay.num_channels(),
        0 <= frame < input.len(),
        2 <= delay_samples <= delay.line_a.capacity,
        delay_samples <= 0xffff_ffff,
        forall|i: int| 0 <= i <= frame ==> #[trigger] delay.runs_line_a(i, send, 0, delay_samples),
    ensures
        delay.played_a(channel, input, frame) == (if frame >= delay_samples - 1 {
            saturated(scaled(input[frame - (delay_samples - 1)] as int, send as int))
        } else {
            delay.line_a.buffers[channel][delay.line_a.slot(channel, delay_samples - 1 - frame)]
        }),
{
    let period = delay_samples - 1;
    assert(delay.runs_line_a(frame, send, 0, delay_samples));
    lemma_line_a_plays_its_feed(delay, channel, input, frame, delay_samples);
    if frame >= period {
        let then = frame - period;
        let state = delay.after_frames(channel, input, then);
        assert(delay.runs_line_a(then, send, 0, delay_samples));
        lemma_frames_keep_settings(delay, channel, input, then);
        lemma_closed_cross_send(
            input[then],
            send,
            state.tap_b(channel, then),
            0,
            state.tap_a(channel, then),
            0,
        );
    }
}

/// Cross-feedback routing: the way of an impulse from line A into line B.
///
/// Both lines of a channel are silent. Line A takes the input at the level
/// `send` and nothing else; line B takes the tap of line A at the level
/// `cross` and nothing else. The lines are set to delays of `delay_a` and
/// `delay_b` whole samples. The input is one value and silence after it. Then
/// line B plays the value through both levels in the frame where both periods
/// have passed, `(delay_a - 1) + (delay_b - 1)`, and silence in every other
/// frame. For a value of 1.0 that is the product of the two levels.
pub proof fn lemma_cross_routing(
    delay: DelayView,
    channel: int,
    value: i64,
    zeros: nat,
    send: i64,
    cross: i64,
    frame: int,
    delay_a: int,
    delay_b: int,
)
    requires
        delay.well_formed(),
        0 <= channel < delay.num_channels(),
        delay.line_a.is_silent(channel),
        delay.line_b.is_silent(channel),
        0 <= frame <= zeros,
        2 <= delay_a <= delay.line_a.capacity,
        2 <= delay_b <= delay.line_b.capacity,
        delay_a <= 0xffff_ffff,
        delay_b <= 0xffff_ffff,
        forall|i: int| 0 <= i <= frame ==> #[trigger] delay.runs_line_a(i, send, 0, delay_a),
        forall|i: int| 0 <= i <= frame ==> #[trigger] delay.runs_line_b_from_a(i, cross, delay_b),
    ensures
        delay.played_b(channel, impulse(value, zeros), frame) == (if frame == (delay_a - 1) + (
        delay_b - 1) {
            saturated(scaled(saturated(scaled(value as int, send as int)) as int, cross as int))
        } else {
            0
        }),
{
    let input = impulse(value, zeros);
    let period_a = delay_a - 1;
    let period_b = delay_b - 1;
    assert(delay.runs_line_b_from_a(frame, cross, delay_b));
    lemma_line_b_plays_its_feed(delay, channel, input, frame, delay_b);
    if frame >= period_b {
        // What line B was fed one period ago is what line A played then.
        let then = frame - period_b;
        let state = delay.after_frames(channel, input, then);
        assert(delay.runs_line_b_from_a(then, cross, delay_b));
        assert(delay.runs_line_a(then, send, 0, delay_a));
        lemma_frames_keep_settings(delay, channel, input, then);
        lemma_line_a_plays_its_feed(delay, channel, input, then, delay_a);
        let tap = delay.played_a(channel, input, then);
        lemma_scaled_by_zero(input[then] as int);
        lemma_scaled_by_zero(state.tap_b(channel, then) as int);
        assert(delay.fed_b(channel, input, then) == saturated(scaled(tap as int, cross as int)));
        if then >= period_a {
            // What line A played then is what it was fed one period earlier.
            let first = then - period_a;
            let start = delay.after_frames(channel, input, first);
            assert(delay.runs_line_a(first, send, 0, delay_a));
            lemma_frames_keep_settings(delay, channel, input, first);
            lemma_closed_cross_send(
                input[first],
                send,
                start.tap_b(channel, first),
                0,
                start.tap_a(channel, first),
                0,
            );
            assert(delay.fed_a(channel, input, first) == saturated(
                scaled(input[first] as int, send as int),
            ));
            lemma_scaled_by_zero(send as int);
            lemma_scaled_by_zero(cross as int);
        } else {
            lemma_mod_bound(
                delay.line_a.write_pointers[channel] - (period_a - then),
                delay.line_a.capacity,
            );
            assert(delay.line_a.buffers[channel].len() == delay.line_a.capacity);
            assert(tap == 0);
            lemma_scaled_by_zero(cross as int);
        }
    } else {
        lemma_mod_bound(
            delay.line_b.write_pointers[channel] - (period_b - frame),
            delay.line_b.capacity,
        );
        assert(delay.line_b.buffers[channel].len() == delay.line_b.capacity);
    }
}

} // verus!
