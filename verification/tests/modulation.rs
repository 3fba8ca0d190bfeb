use brume::modulation::{floor_div, LfoMode, RingBuffer, StepSequencer, StepTrigger};

/// The quarter-beat index of a transport beat position.
fn quarter(beat_pos: f64) -> i64 {
    (beat_pos * 4.0).floor() as i64
}

/// The sequencer's default ascending ramp.
fn ramp() -> [f32; 8] {
    [0.0, 0.14, 0.29, 0.43, 0.57, 0.71, 0.86, 1.0]
}

#[test]
fn push_and_read() {
    let mut buf = RingBuffer::<f32, 4>::new();
    assert!(buf.is_empty());

    buf.push(1.0);
    buf.push(2.0);
    buf.push(3.0);
    assert_eq!(buf.len(), 3);
    assert!((buf.newest().unwrap() - 3.0).abs() < f32::EPSILON);
    assert!((buf.oldest().unwrap() - 1.0).abs() < f32::EPSILON);
}

#[test]
fn overflow_wraps() {
    let mut buf = RingBuffer::<f32, 3>::new();
    buf.push(1.0);
    buf.push(2.0);
    buf.push(3.0);
    buf.push(4.0);

    assert!(buf.is_full());
    assert!((buf.oldest().unwrap() - 2.0).abs() < f32::EPSILON);
    assert!((buf.newest().unwrap() - 4.0).abs() < f32::EPSILON);
}

#[test]
fn iter_order() {
    let mut buf = RingBuffer::<f32, 3>::new();
    buf.push(10.0);
    buf.push(20.0);
    buf.push(30.0);
    buf.push(40.0);

    let vals: Vec<f32> = buf.iter();
    assert_eq!(vals, vec![20.0, 30.0, 40.0]);
}

#[test]
fn ring_keeps_last_n_values() {
    let mut buf = RingBuffer::<u32, 4>::new();
    for v in 1..=10u32 {
        buf.push(v);
    }
    assert_eq!(buf.iter(), vec![7, 8, 9, 10]);
    assert_eq!(buf.len(), 4);
    assert_eq!(buf.capacity(), 4);
}

#[test]
fn ring_clear_and_empty_reads() {
    let mut buf = RingBuffer::<u32, 2>::new();
    assert_eq!(buf.newest(), None);
    assert_eq!(buf.oldest(), None);
    buf.push(5);
    buf.push(6);
    buf.push(7);
    buf.clear();
    assert!(buf.is_empty());
    assert_eq!(buf.iter(), Vec::<u32>::new());
    buf.push(8);
    assert_eq!(buf.oldest(), Some(8));
    assert_eq!(buf.newest(), Some(8));
}

#[test]
fn note_trigger_advances() {
    let mut seq = StepSequencer::new(ramp());
    seq.set_num_steps(4);
    seq.set_trigger(StepTrigger::NoteOn);

    assert_eq!(seq.current_step(), 0);
    seq.check_note_trigger();
    assert_eq!(seq.current_step(), 1);
    seq.check_note_trigger();
    assert_eq!(seq.current_step(), 2);
}

#[test]
fn wraps_at_num_steps() {
    let mut seq = StepSequencer::new(ramp());
    seq.set_num_steps(3);
    seq.set_trigger(StepTrigger::NoteOn);

    for _ in 0..3 {
        seq.check_note_trigger();
    }
    assert_eq!(seq.current_step(), 0);
}

#[test]
fn beat_trigger() {
    let mut seq = StepSequencer::new(ramp());
    seq.set_num_steps(4);
    seq.set_trigger(StepTrigger::Beat);

    seq.check_beat_trigger(quarter(0.0));
    assert_eq!(seq.current_step(), 0);

    seq.check_beat_trigger(quarter(0.5));
    assert_eq!(seq.current_step(), 0);

    seq.check_beat_trigger(quarter(1.0));
    assert_eq!(seq.current_step(), 1);

    seq.check_beat_trigger(quarter(2.0));
    assert_eq!(seq.current_step(), 2);
}

#[test]
fn half_beat_trigger() {
    let mut seq = StepSequencer::new(ramp());
    seq.set_num_steps(8);
    seq.set_trigger(StepTrigger::HalfBeat);

    seq.check_beat_trigger(quarter(0.0));
    seq.check_beat_trigger(quarter(0.5));
    assert_eq!(seq.current_step(), 1);
    seq.check_beat_trigger(quarter(1.0));
    assert_eq!(seq.current_step(), 2);
}

#[test]
fn step_values() {
    let mut seq = StepSequencer::new(ramp());
    seq.set_step_value(0, 0.25);
    seq.set_step_value(1, 0.75);
    assert!((seq.get_step_value(0) - 0.25).abs() < f32::EPSILON);
    assert!((seq.get_step_value(1) - 0.75).abs() < f32::EPSILON);
}

#[test]
fn step_count_clamps_and_resets_position() {
    let mut seq = StepSequencer::new([0u8, 1, 2, 3, 4, 5, 6, 7]);
    seq.set_trigger(StepTrigger::NoteOn);
    seq.set_num_steps(0);
    seq.check_note_trigger();
    assert_eq!(seq.current_step(), 0);
    seq.set_num_steps(99);
    for _ in 0..7 {
        seq.check_note_trigger();
    }
    assert_eq!(seq.current_step(), 7);
    assert_eq!(seq.current_value(), 7);
    seq.set_num_steps(4);
    assert_eq!(seq.current_step(), 0);
    assert_eq!(seq.get_step_value(8), 0);
    seq.set_step_value(9, 42);
    assert_eq!(seq.get_step_value(7), 7);
}

#[test]
fn note_and_beat_triggers_exclude_each_other() {
    let mut seq = StepSequencer::new([0u8; 8]);
    assert!(!seq.check_note_trigger());
    seq.set_trigger(StepTrigger::NoteOn);
    assert!(!seq.check_beat_trigger(0));
    assert!(!seq.check_beat_trigger(100));
    assert_eq!(seq.current_step(), 0);
}

#[test]
fn quarter_beat_trigger_and_reset() {
    let mut seq = StepSequencer::new([0u8; 8]);
    seq.set_num_steps(8);
    seq.set_trigger(StepTrigger::QuarterBeat);
    assert!(!seq.check_beat_trigger(quarter(0.0)));
    assert!(seq.check_beat_trigger(quarter(0.25)));
    assert!(!seq.check_beat_trigger(quarter(0.3)));
    assert!(seq.check_beat_trigger(quarter(1.0)));
    assert_eq!(seq.current_step(), 2);
    seq.reset();
    assert_eq!(seq.current_step(), 0);
    assert!(!seq.check_beat_trigger(quarter(5.0)));
}

#[test]
fn floor_div_rounds_down() {
    assert_eq!(floor_div(7, 4), 1);
    assert_eq!(floor_div(-1, 4), -1);
    assert_eq!(floor_div(-4, 4), -1);
    assert_eq!(floor_div(-5, 4), -2);
    assert_eq!(floor_div(0, 2), 0);
}

#[test]
fn enum_defaults() {
    assert_eq!(LfoMode::default(), LfoMode::Loop);
    assert_eq!(StepTrigger::default(), StepTrigger::NoteOn);
}
