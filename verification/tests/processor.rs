use micro_delay::{
    buffer_capacity, inject, mix, BlockCurves, Delay, ProcessStatus, GUARD_SAMPLES,
    MAX_DELAY_TIME_MS, ONE, UNIT,
};

/// Knob positions in percent and delay times in milliseconds, held over a block.
#[derive(Clone, Copy)]
struct Knobs {
    dry: i64,
    in_a: i64,
    in_b: i64,
    a_out: i64,
    b_out: i64,
    fb_a: i64,
    fb_b: i64,
    a_b: i64,
    b_a: i64,
    delay_a: u64,
    delay_b: u64,
}

fn closed() -> Knobs {
    Knobs {
        dry: 0,
        in_a: 0,
        in_b: 0,
        a_out: 0,
        b_out: 0,
        fb_a: 0,
        fb_b: 0,
        a_b: 0,
        b_a: 0,
        delay_a: 2,
        delay_b: 2,
    }
}

fn curves(knobs: Knobs, frames: usize) -> BlockCurves {
    BlockCurves {
        in_send_out: vec![knobs.dry * ONE; frames],
        in_send_a: vec![knobs.in_a * ONE; frames],
        in_send_b: vec![knobs.in_b * ONE; frames],
        a_send_out: vec![knobs.a_out * ONE; frames],
        delay_a: vec![knobs.delay_a * UNIT; frames],
        fb_a: vec![knobs.fb_a * ONE; frames],
        a_send_b: vec![knobs.a_b * ONE; frames],
        b_send_out: vec![knobs.b_out * ONE; frames],
        delay_b: vec![knobs.delay_b * UNIT; frames],
        fb_b: vec![knobs.fb_b * ONE; frames],
        b_send_a: vec![knobs.b_a * ONE; frames],
    }
}

/// A processor at 1000 samples per second, where a millisecond is a sample.
fn processor(channels: u32, block: u32) -> Delay {
    let mut delay = Delay::default();
    assert!(delay.initialize(1000, block, channels));
    delay
}

fn impulse(frames: usize) -> Vec<i64> {
    let mut block = vec![0; frames];
    block[0] = ONE;
    block
}

fn run(delay: &mut Delay, knobs: Knobs, input: Vec<i64>) -> Vec<i64> {
    let frames = input.len();
    let mut buffer = vec![input];
    let status = delay.process(&mut buffer, frames, &curves(knobs, frames));
    assert_eq!(status, ProcessStatus::Normal);
    buffer.remove(0)
}

#[test]
fn capacity_covers_the_longest_delay_and_the_guard() {
    assert_eq!(buffer_capacity(48000, 1000, 5), Some(48005));
    assert_eq!(buffer_capacity(44100, 1, 5), Some(50));
    assert_eq!(buffer_capacity(44100, 10, 0), Some(441));
    assert_eq!(buffer_capacity(0, 1000, 5), Some(5));
    assert_eq!(buffer_capacity(1, 1, 0), Some(1));
    assert_eq!(buffer_capacity(48000, MAX_DELAY_TIME_MS, GUARD_SAMPLES), Some(768005));
    assert_eq!(buffer_capacity(u32::MAX, u32::MAX, u32::MAX), Some(18446748360086913));
}

#[test]
fn default_processor_is_not_set_up() {
    let delay = Delay::default();
    assert_eq!(delay.num_channels(), 0);
    assert_eq!(delay.block_capacity(), 0);
    assert_eq!(delay.capacity(), 0);
    assert_eq!(delay.sample_rate(), 0);
}

#[test]
fn initialize_sets_the_shape() {
    let mut delay = Delay::default();
    assert!(delay.initialize(48000, 512, 2));
    assert_eq!(delay.num_channels(), 2);
    assert_eq!(delay.block_capacity(), 512);
    assert_eq!(delay.capacity(), 768005);
    assert_eq!(delay.sample_rate(), 48000);
}

#[test]
fn initialize_refuses_a_degenerate_configuration() {
    let mut delay = Delay::default();
    assert!(!delay.initialize(0, 512, 2));
    assert!(!delay.initialize(48000, 512, 0));
    assert!(!delay.initialize(0, 0, 0));
    assert_eq!(delay.num_channels(), 0);
    assert_eq!(delay.capacity(), 0);

    let mut delay = processor(2, 16);
    assert!(!delay.initialize(0, 64, 1));
    assert_eq!(delay.num_channels(), 2);
    assert_eq!(delay.block_capacity(), 16);
    assert_eq!(delay.sample_rate(), 1000);
}

#[test]
fn initialize_again_resizes_and_silences() {
    let mut delay = processor(1, 8);
    let knobs = Knobs { in_a: 100, a_out: 100, delay_a: 3, ..closed() };
    run(&mut delay, knobs, impulse(2));
    assert!(delay.initialize(2000, 32, 2));
    assert_eq!(delay.num_channels(), 2);
    assert_eq!(delay.block_capacity(), 32);
    assert_eq!(delay.capacity(), 32005);
    assert_eq!(run(&mut delay, knobs, vec![0; 8]), vec![0; 8]);
}

#[test]
fn an_empty_block_is_processed() {
    let mut delay = processor(2, 8);
    let mut buffer = vec![vec![], vec![]];
    assert_eq!(delay.process(&mut buffer, 0, &curves(closed(), 0)), ProcessStatus::Normal);
    let mut empty: Vec<Vec<i64>> = vec![];
    assert_eq!(delay.process(&mut empty, 4, &curves(closed(), 4)), ProcessStatus::Normal);
    let mut unset = Delay::default();
    assert_eq!(unset.process(&mut empty, 0, &curves(closed(), 0)), ProcessStatus::Normal);
}

#[test]
fn a_block_that_does_not_fit_is_fatal() {
    let mut delay = processor(2, 8);
    let knobs = Knobs { dry: 100, ..closed() };

    let mut buffer = vec![vec![ONE; 4], vec![ONE; 4], vec![ONE; 4]];
    assert_eq!(delay.process(&mut buffer, 4, &curves(knobs, 4)), ProcessStatus::Fatal);
    assert_eq!(buffer, vec![vec![ONE; 4], vec![ONE; 4], vec![ONE; 4]]);

    let mut buffer = vec![vec![ONE; 9]];
    assert_eq!(delay.process(&mut buffer, 9, &curves(knobs, 9)), ProcessStatus::Fatal);
    assert_eq!(buffer, vec![vec![ONE; 9]]);

    let mut buffer = vec![vec![ONE; 4]];
    assert_eq!(delay.process(&mut buffer, 4, &curves(knobs, 3)), ProcessStatus::Fatal);
    assert_eq!(buffer, vec![vec![ONE; 4]]);

    let mut buffer = vec![vec![ONE; 4], vec![ONE; 3]];
    assert_eq!(delay.process(&mut buffer, 4, &curves(knobs, 4)), ProcessStatus::Fatal);
    assert_eq!(buffer, vec![vec![ONE; 4], vec![ONE; 3]]);

    let mut buffer = vec![vec![ONE; 4]];
    assert_eq!(delay.process(&mut buffer, 3, &curves(knobs, 4)), ProcessStatus::Fatal);

    let mut short = curves(knobs, 4);
    short.delay_b = vec![UNIT; 3];
    assert_eq!(delay.process(&mut buffer, 4, &short), ProcessStatus::Fatal);

    let mut unset = Delay::default();
    assert_eq!(unset.process(&mut buffer, 4, &curves(knobs, 4)), ProcessStatus::Fatal);
    assert_eq!(buffer, vec![vec![ONE; 4]]);
}

#[test]
fn dry_path_passes_the_input() {
    let mut delay = processor(1, 8);
    let input = vec![ONE, -ONE / 2, 3, 0, i64::MAX, i64::MIN];
    let knobs = Knobs { dry: 100, ..closed() };
    assert_eq!(run(&mut delay, knobs, input.clone()), input);
    let knobs = Knobs { dry: 50, ..closed() };
    assert_eq!(
        run(&mut delay, knobs, vec![ONE, -ONE, 3, -3]),
        vec![ONE / 2, -ONE / 2, 1, -1]
    );
    let knobs = Knobs { dry: -100, ..closed() };
    assert_eq!(run(&mut delay, knobs, vec![ONE, i64::MIN]), vec![-ONE, i64::MAX]);
}

#[test]
fn impulse_response_of_one_line() {
    for samples in 2..10u64 {
        let mut delay = processor(1, 16);
        let knobs = Knobs { in_a: 100, a_out: 100, delay_a: samples, ..closed() };
        let output = run(&mut delay, knobs, impulse(16));
        for (frame, value) in output.iter().enumerate() {
            if frame as u64 == samples - 1 {
                assert_eq!(*value, ONE);
            } else {
                assert_eq!(*value, 0);
            }
        }
    }
}

#[test]
fn feedback_decays_geometrically() {
    let mut delay = processor(1, 32);
    let knobs = Knobs { in_a: 100, a_out: 100, fb_a: 50, delay_a: 5, ..closed() };
    let output = run(&mut delay, knobs, impulse(20));
    for (frame, value) in output.iter().enumerate() {
        let expected = match frame {
            4 => ONE,
            8 => ONE / 2,
            12 => ONE / 4,
            16 => ONE / 8,
            _ => 0,
        };
        assert_eq!(*value, expected);
    }
}

#[test]
fn inverted_feedback_alternates_the_sign() {
    let mut delay = processor(1, 32);
    let knobs = Knobs { in_a: 100, a_out: 100, fb_a: -50, delay_a: 3, ..closed() };
    let output = run(&mut delay, knobs, impulse(9));
    assert_eq!(output, vec![0, 0, ONE, 0, -ONE / 2, 0, ONE / 4, 0, -ONE / 8]);
}

#[test]
fn cross_send_routes_line_a_into_line_b() {
    let mut delay = processor(1, 32);
    let knobs = Knobs { in_a: 100, a_b: 50, b_out: 100, delay_a: 3, delay_b: 4, ..closed() };
    let output = run(&mut delay, knobs, impulse(12));
    for (frame, value) in output.iter().enumerate() {
        if frame == 5 {
            assert_eq!(*value, ONE / 2);
        } else {
            assert_eq!(*value, 0);
        }
    }
}

#[test]
fn line_a_is_unaffected_by_line_b_without_a_send_back() {
    let input: Vec<i64> = (0..24).map(|i| (i * 37 % 11 - 5) * (ONE / 8)).collect();
    let alone = Knobs { in_a: 100, a_out: 100, delay_a: 3, ..closed() };
    let beside = Knobs { in_b: 100, fb_b: 90, a_b: 70, delay_b: 2, ..alone };
    let mut first = processor(1, 32);
    let mut second = processor(1, 32);
    assert_eq!(run(&mut first, alone, input.clone()), run(&mut second, beside, input));
}

#[test]
fn both_lines_and_the_dry_path_add_up() {
    let mut delay = processor(1, 32);
    let knobs = Knobs {
        dry: 100,
        in_a: 100,
        in_b: 50,
        a_out: 50,
        b_out: 100,
        delay_a: 2,
        delay_b: 3,
        ..closed()
    };
    let output = run(&mut delay, knobs, impulse(5));
    assert_eq!(output, vec![ONE, ONE / 2, ONE / 2, 0, 0]);
}

#[test]
fn send_back_closes_the_loop_between_the_lines() {
    let mut delay = processor(1, 32);
    let knobs = Knobs {
        in_a: 100,
        a_out: 100,
        a_b: 100,
        b_a: 50,
        delay_a: 2,
        delay_b: 2,
        ..closed()
    };
    let output = run(&mut delay, knobs, impulse(8));
    assert_eq!(output, vec![0, ONE, 0, ONE / 2, 0, ONE / 4, 0, ONE / 8]);
}

#[test]
fn state_carries_over_from_block_to_block() {
    let knobs = Knobs { in_a: 100, a_out: 100, fb_a: 50, delay_a: 4, ..closed() };
    let mut whole = processor(1, 32);
    let expected = run(&mut whole, knobs, impulse(12));
    let mut split = processor(1, 32);
    let mut output = run(&mut split, knobs, impulse(5));
    output.extend(run(&mut split, knobs, vec![0; 3]));
    output.extend(run(&mut split, knobs, vec![0; 4]));
    assert_eq!(output, expected);
}

#[test]
fn channels_do_not_mix() {
    let mut delay = processor(2, 16);
    let knobs = Knobs { in_a: 100, a_out: 100, delay_a: 3, ..closed() };
    let mut buffer = vec![impulse(6), vec![0, 0, -ONE, 0, 0, 0]];
    assert_eq!(delay.process(&mut buffer, 6, &curves(knobs, 6)), ProcessStatus::Normal);
    assert_eq!(buffer[0], vec![0, 0, ONE, 0, 0, 0]);
    assert_eq!(buffer[1], vec![0, 0, 0, 0, -ONE, 0]);
    let mut mono = vec![vec![0; 4]];
    assert_eq!(delay.process(&mut mono, 4, &curves(knobs, 4)), ProcessStatus::Normal);
    assert_eq!(mono[0], vec![0; 4]);
}

#[test]
fn reset_silences_both_lines() {
    let mut delay = processor(1, 16);
    let knobs = Knobs { in_a: 100, in_b: 100, a_out: 100, b_out: 100, delay_a: 6, delay_b: 9, ..closed() };
    run(&mut delay, knobs, vec![ONE; 4]);
    delay.reset();
    assert_eq!(delay.num_channels(), 1);
    assert_eq!(delay.block_capacity(), 16);
    assert_eq!(delay.capacity(), 16005);
    assert_eq!(run(&mut delay, knobs, vec![0; 16]), vec![0; 16]);
}

#[test]
fn fractional_delay_time_blends_the_taps() {
    let mut delay = Delay::default();
    assert!(delay.initialize(1000, 16, 1));
    let mut block = curves(Knobs { in_a: 100, a_out: 100, ..closed() }, 6);
    block.delay_a = vec![2 * UNIT + UNIT / 4; 6];
    let mut buffer = vec![impulse(6)];
    assert_eq!(delay.process(&mut buffer, 6, &block), ProcessStatus::Normal);
    assert_eq!(buffer[0], vec![0, 0, ONE - ONE / 4, ONE / 4, 0, 0]);
}

#[test]
fn delay_time_is_automated_per_sample() {
    let mut delay = processor(1, 16);
    let mut block = curves(Knobs { in_a: 100, a_out: 100, ..closed() }, 6);
    block.delay_a = vec![2 * UNIT, 2 * UNIT, 3 * UNIT, 4 * UNIT, 2 * UNIT, 6 * UNIT];
    let mut buffer = vec![impulse(6)];
    assert_eq!(delay.process(&mut buffer, 6, &block), ProcessStatus::Normal);
    assert_eq!(buffer[0], vec![0, ONE, ONE, ONE, 0, ONE]);
}

#[test]
fn frames_can_be_run_one_by_one() {
    let mut delay = processor(1, 8);
    let block = curves(Knobs { dry: 100, in_a: 100, a_out: 50, fb_a: 100, delay_a: 2, ..closed() }, 4);
    delay.sample_automation(&block, 4);
    assert_eq!(delay.process_frame(0, 0, ONE), ONE);
    assert_eq!(delay.process_frame(0, 1, 0), ONE / 2);
    assert_eq!(delay.process_frame(0, 2, 0), ONE / 2);
    assert_eq!(delay.process_frame(0, 3, ONE), ONE + ONE / 2);
}

#[test]
fn a_line_is_fed_input_cross_send_and_feedback() {
    assert_eq!(inject(ONE, ONE / 2, ONE, ONE / 4, ONE, ONE / 8), ONE / 2 + ONE / 4 + ONE / 8);
    assert_eq!(inject(2 * ONE, -ONE, 4 * ONE, ONE / 2, -ONE, ONE), -ONE);
    assert_eq!(inject(3, ONE / 2, 3, ONE / 2, -3, ONE / 2), 1);
    assert_eq!(inject(i64::MAX, ONE, i64::MAX, ONE, 0, 0), i64::MAX);
    assert_eq!(inject(i64::MIN, ONE, i64::MIN, ONE, i64::MIN, ONE), i64::MIN);
    assert_eq!(inject(i64::MAX, ONE, i64::MIN, ONE, 7, ONE), 6);
    assert_eq!(inject(12345, 0, 67890, 0, 424242, 0), 0);
}

#[test]
fn the_output_is_dry_plus_wet() {
    assert_eq!(mix(ONE, ONE, ONE, ONE / 2, ONE, ONE / 4), ONE + ONE / 2 + ONE / 4);
    assert_eq!(mix(ONE, 0, 5 * ONE, ONE, -2 * ONE, ONE), 3 * ONE);
    assert_eq!(mix(i64::MAX, ONE, i64::MAX, ONE, i64::MIN, ONE), i64::MAX - 1);
    assert_eq!(mix(i64::MIN, ONE, i64::MIN, ONE, 0, ONE), i64::MIN);
    assert_eq!(mix(-7, ONE / 2, 7, ONE / 2, 1, ONE / 2), 0);
}
