use micro_delay::{DelayLine, TimeUnit, ONE, UNIT};

fn line(capacity: usize, channels: usize) -> DelayLine {
    let mut line = DelayLine::default();
    line.init(capacity, channels, 8, 48000);
    line
}

fn push(line: &mut DelayLine, value: i64, channel: usize) {
    line.write(value, channel);
    line.advance(channel);
}

#[test]
fn default_line_has_no_channels() {
    let line = DelayLine::default();
    assert_eq!(line.num_channels(), 0);
    assert_eq!(line.capacity(), 0);
    assert_eq!(line.block_capacity(), 0);
    assert_eq!(line.delay(), 0);
    assert_eq!(line.feedback(), 0);
}

#[test]
fn init_sets_the_shape() {
    let line = line(48005, 2);
    assert_eq!(line.num_channels(), 2);
    assert_eq!(line.capacity(), 48005);
    assert_eq!(line.block_capacity(), 8);
    assert_eq!(line.delay(), 0);
    assert_eq!(line.feedback(), 0);
}

#[test]
fn fresh_line_is_silent_at_every_delay() {
    let mut line = line(48005, 2);
    for whole in 0..48005u64 {
        line.set_delay(whole * UNIT);
        assert_eq!(line.read(0), 0);
        assert_eq!(line.read(1), 0);
    }
    for delay in [1, UNIT / 2, UNIT + 1, 48004 * UNIT + UNIT - 1, u64::MAX] {
        line.set_delay(delay);
        assert_eq!(line.read(0), 0);
    }
}

#[test]
fn reset_silences_and_rewinds() {
    let mut line = line(7, 2);
    for value in 1..=10 {
        push(&mut line, value * ONE, 0);
        push(&mut line, -value * ONE, 1);
    }
    line.set_delay(3 * UNIT);
    assert_ne!(line.read(0), 0);
    line.reset();
    assert_eq!(line.capacity(), 7);
    assert_eq!(line.num_channels(), 2);
    assert_eq!(line.delay(), 3 * UNIT);
    for whole in 0..7u64 {
        line.set_delay(whole * UNIT);
        assert_eq!(line.read(0), 0);
        assert_eq!(line.read(1), 0);
    }
    push(&mut line, 5 * ONE, 0);
    line.set_delay(2 * UNIT);
    assert_eq!(line.read(0), 5 * ONE);
}

#[test]
fn whole_delay_reads_the_second_tap() {
    let mut line = line(16, 1);
    for value in 1..=5 {
        push(&mut line, value * ONE, 0);
    }
    line.set_delay(2 * UNIT);
    assert_eq!(line.read(0), 5 * ONE);
    line.set_delay(3 * UNIT);
    assert_eq!(line.read(0), 4 * ONE);
    line.set_delay(6 * UNIT);
    assert_eq!(line.read(0), ONE);
    line.set_delay(7 * UNIT);
    assert_eq!(line.read(0), 0);
}

#[test]
fn fractional_delay_blends_two_taps() {
    let mut line = line(16, 1);
    for value in [ONE, 3 * ONE, 2 * ONE, 8 * ONE] {
        push(&mut line, value, 0);
    }
    // Delay 1.25: the first tap lies 2 slots back, the second 1 slot back.
    line.set_delay(UNIT + UNIT / 4);
    assert_eq!(line.read(0), 8 * ONE + (2 * ONE - 8 * ONE) / 4);
    // Delay 2.5: taps 3 and 2 slots back.
    line.set_delay(2 * UNIT + UNIT / 2);
    assert_eq!(line.read(0), (3 * ONE + 2 * ONE) / 2);
    // Delay 3.75: taps 4 and 3 slots back.
    line.set_delay(3 * UNIT + 3 * (UNIT / 4));
    assert_eq!(line.read(0), 3 * ONE + 3 * ((ONE - 3 * ONE) / 4));
}

#[test]
fn unit_impulse_between_two_taps() {
    let mut line = line(32, 1);
    push(&mut line, ONE, 0);
    for _ in 0..4 {
        push(&mut line, 0, 0);
    }
    // The impulse lies 5 slots back. At delay 4 + r it is the first tap.
    line.set_delay(4 * UNIT + UNIT / 4);
    assert_eq!(line.read(0), ONE / 4);
    // At delay 5 + r it is the second tap.
    line.set_delay(5 * UNIT + UNIT / 4);
    assert_eq!(line.read(0), ONE - ONE / 4);
    line.set_delay(6 * UNIT);
    assert_eq!(line.read(0), ONE);
    line.set_delay(5 * UNIT);
    assert_eq!(line.read(0), 0);
}

#[test]
fn impulse_comes_back_one_frame_before_a_whole_delay() {
    for delay in 2..12u64 {
        let mut line = line(16, 1);
        line.set_delay(delay * UNIT);
        for frame in 0..15u64 {
            let tap = line.read(0);
            if frame == delay - 1 {
                assert_eq!(tap, ONE);
            } else {
                assert_eq!(tap, 0);
            }
            push(&mut line, if frame == 0 { ONE } else { 0 }, 0);
        }
    }
}

#[test]
fn write_pointer_wraps_at_the_capacity() {
    let mut line = line(4, 1);
    for value in 1..=6 {
        push(&mut line, value * ONE, 0);
    }
    line.set_delay(2 * UNIT);
    assert_eq!(line.read(0), 6 * ONE);
    line.set_delay(4 * UNIT);
    assert_eq!(line.read(0), 4 * ONE);
    // A delay of one whole round reads the newest sample again.
    line.set_delay(6 * UNIT);
    assert_eq!(line.read(0), 6 * ONE);
    // Delays of 0 and 1 read the oldest slots of the round.
    line.set_delay(UNIT);
    assert_eq!(line.read(0), 3 * ONE);
    line.set_delay(0);
    assert_eq!(line.read(0), 4 * ONE);
}

#[test]
fn write_without_advance_overwrites() {
    let mut line = line(4, 1);
    line.write(ONE, 0);
    line.write(2 * ONE, 0);
    line.advance(0);
    line.set_delay(2 * UNIT);
    assert_eq!(line.read(0), 2 * ONE);
}

#[test]
fn channels_are_independent() {
    let mut line = line(8, 2);
    push(&mut line, ONE, 0);
    push(&mut line, ONE, 0);
    push(&mut line, 5 * ONE, 1);
    line.set_delay(2 * UNIT);
    assert_eq!(line.read(0), ONE);
    assert_eq!(line.read(1), 5 * ONE);
    line.set_delay(3 * UNIT);
    assert_eq!(line.read(0), ONE);
    assert_eq!(line.read(1), 0);
}

#[test]
fn single_slot_line_reads_its_slot() {
    let mut line = line(1, 1);
    push(&mut line, 9 * ONE, 0);
    for delay in [0, UNIT / 2, UNIT, 5 * UNIT + 7] {
        line.set_delay(delay);
        assert_eq!(line.read(0), 9 * ONE);
    }
}

#[test]
fn automation_is_loaded_and_put_in_force() {
    let mut line = line(64, 1);
    let times = vec![UNIT, 2 * UNIT, UNIT / 2];
    let knobs = vec![50 * ONE, -100 * ONE, 0];
    line.load_delay_automation(&times, 3, TimeUnit::Milliseconds);
    line.load_feedback_automation(&knobs, 3);
    line.automate(0);
    assert_eq!(line.delay(), 48 * UNIT);
    assert_eq!(line.feedback(), ONE / 2);
    line.automate(1);
    assert_eq!(line.delay(), 96 * UNIT);
    assert_eq!(line.feedback(), -ONE);
    line.automate(2);
    assert_eq!(line.delay(), 24 * UNIT);
    assert_eq!(line.feedback(), 0);
    line.automate(3);
    assert_eq!(line.delay(), 0);
    assert_eq!(line.feedback(), 0);
    line.set_feedback(7);
    assert_eq!(line.feedback(), 7);
}
