use brume::channels::ChannelRouting;
use brume::learn::{learn_target, LearnFlow, LearnPhase, LearnTarget, ResetArm, RESET_DISARM_MS};
use brume::mixer::MixSolo;
use brume::shapes::{ShapeInterpolator, TransitionShape};

/// Feeds the interpolator linear shaped values until `steps` samples
/// have been produced.
fn run_linear(interp: &mut ShapeInterpolator<f32>, steps: usize) {
    for _ in 0..steps {
        let shaped = match interp.progress() {
            Some((pos, len)) => {
                let t = pos as f32 / len as f32;
                interp.start_value() + (interp.end_value() - interp.start_value()) * t
            }
            None => interp.value(),
        };
        interp.process(shaped);
    }
}

#[test]
fn interpolator_linear_convergence() {
    let mut interp = ShapeInterpolator::new(TransitionShape::LinearUp, 0.0f32);
    interp.start_transition(0.0, 1.0, 100);
    assert!(interp.is_active());

    run_linear(&mut interp, 50);
    assert!((interp.value() - 0.5).abs() < 0.02);

    run_linear(&mut interp, 50);
    assert!(!interp.is_active());
    assert!((interp.value() - 1.0).abs() < 0.001);
}

#[test]
fn interpolator_set_value_cancels() {
    let mut interp = ShapeInterpolator::new(TransitionShape::LinearUp, 0.0f32);
    interp.start_transition(0.0, 1.0, 100);
    interp.set_value(0.75);
    assert!(!interp.is_active());
    assert!((interp.value() - 0.75).abs() < f32::EPSILON);
}

#[test]
fn interpolator_holds_target_after_its_length() {
    let mut interp = ShapeInterpolator::new(TransitionShape::ExpAttack, 3i32);
    interp.start_transition(3, 9, 4);
    assert_eq!(interp.progress(), Some((0, 4)));
    assert_eq!(interp.process(5), 5);
    assert_eq!(interp.process(6), 6);
    assert_eq!(interp.process(7), 7);
    assert!(interp.is_active());
    // The last sample lands on the target, whatever was computed.
    assert_eq!(interp.process(100), 9);
    assert!(!interp.is_active());
    assert_eq!(interp.progress(), None);
    assert_eq!(interp.process(42), 9);
}

#[test]
fn interpolator_zero_duration_is_one_sample() {
    let mut interp = ShapeInterpolator::new(TransitionShape::LinearDown, 0u8);
    interp.start_transition(10, 20, 0);
    assert_eq!(interp.progress(), Some((0, 1)));
    assert_eq!(interp.process(15), 20);
    assert!(!interp.is_active());
}

#[test]
fn interpolator_set_shape_keeps_transition() {
    let mut interp = ShapeInterpolator::new(TransitionShape::LinearUp, 0u8);
    interp.start_transition_with_shape(0, 8, 3, TransitionShape::BounceOut);
    assert_eq!(interp.shape(), TransitionShape::BounceOut);
    interp.set_shape(TransitionShape::SCurveSmooth);
    assert_eq!(interp.shape(), TransitionShape::SCurveSmooth);
    assert!(interp.is_active());
    assert_eq!(interp.progress(), Some((0, 3)));
}

#[test]
fn mixer_starts_clear() {
    let m = MixSolo::new();
    for p in 0..4u8 {
        assert!(!m.is_muted(p));
    }
    assert_eq!(m.solo(), None);
}

#[test]
fn mixer_solo_mutes_others_and_second_solo_clears() {
    let mut m = MixSolo::new();
    let msgs = m.toggle_solo(1);
    assert_eq!(msgs, vec![(0, true), (2, true), (3, true)]);
    assert_eq!(m.solo(), Some(1));
    assert!(!m.is_muted(1));
    assert!(m.is_muted(0) && m.is_muted(2) && m.is_muted(3));

    let msgs = m.toggle_solo(1);
    assert_eq!(msgs, vec![(0, false), (2, false), (3, false)]);
    assert_eq!(m.solo(), None);
    for p in 0..4u8 {
        assert!(!m.is_muted(p));
    }
}

#[test]
fn mixer_solo_moves_between_parts() {
    let mut m = MixSolo::new();
    m.toggle_solo(0);
    let msgs = m.toggle_solo(3);
    assert_eq!(msgs, vec![(0, true), (3, false)]);
    assert_eq!(m.solo(), Some(3));
}

#[test]
fn mixer_mute_toggles_one_part() {
    let mut m = MixSolo::new();
    assert_eq!(m.toggle_mute(2), vec![(2, true)]);
    assert!(m.is_muted(2));
    assert_eq!(m.toggle_mute(2), vec![(2, false)]);
    assert!(!m.is_muted(2));
}

#[test]
fn mixer_muting_soloed_part_clears_solo() {
    let mut m = MixSolo::new();
    m.toggle_solo(0);
    let msgs = m.toggle_mute(0);
    assert_eq!(msgs, vec![(1, false), (2, false), (3, false), (0, true)]);
    assert_eq!(m.solo(), None);
    assert!(m.is_muted(0));
    assert!(!m.is_muted(1));
}

#[test]
fn mixer_muting_other_part_keeps_solo() {
    let mut m = MixSolo::new();
    m.toggle_solo(2);
    assert_eq!(m.toggle_mute(2 + 1), vec![(3, false)]);
    assert_eq!(m.solo(), Some(2));
}

#[test]
fn mixer_out_of_range_part_does_nothing() {
    let mut m = MixSolo::new();
    assert!(m.toggle_mute(4).is_empty());
    assert!(m.toggle_solo(9).is_empty());
    assert_eq!(m.solo(), None);
}

#[test]
fn learn_full_flow_saves_binding() {
    let mut l = LearnFlow::new();
    assert_eq!(l.phase(), LearnPhase::Idle);
    assert!(l.toggle());
    assert_eq!(l.phase(), LearnPhase::Listening);
    assert_eq!(l.capture(2, 74, 100), Some(2));
    assert_eq!(l.phase(), LearnPhase::Detected { channel: 2, cc: 74, value: 100 });
    l.select_dest("fm.cutoff".to_string());
    assert_eq!(l.save(), Some((74, "fm.cutoff".to_string())));
    assert_eq!(l.phase(), LearnPhase::Idle);
}

#[test]
fn learn_capture_when_idle_is_ignored() {
    let mut l = LearnFlow::new();
    assert_eq!(l.capture(0, 1, 2), None);
    assert_eq!(l.phase(), LearnPhase::Idle);
}

#[test]
fn learn_capture_on_other_channel_shows_no_tab() {
    let mut l = LearnFlow::new();
    l.toggle();
    assert_eq!(l.capture(9, 20, 64), None);
    assert_eq!(l.phase(), LearnPhase::Detected { channel: 9, cc: 20, value: 64 });
}

#[test]
fn learn_save_without_destination_keeps_detection() {
    let mut l = LearnFlow::new();
    l.toggle();
    l.capture(1, 7, 3);
    assert_eq!(l.save(), None);
    assert_eq!(l.phase(), LearnPhase::Detected { channel: 1, cc: 7, value: 3 });
}

#[test]
fn learn_toggle_or_cancel_disarms() {
    let mut l = LearnFlow::new();
    l.toggle();
    l.capture(1, 7, 3);
    assert!(!l.toggle());
    assert_eq!(l.phase(), LearnPhase::Idle);
    l.toggle();
    l.cancel();
    assert_eq!(l.phase(), LearnPhase::Idle);
    assert_eq!(l.save(), None);
}

#[test]
fn channel_pick_routes_and_steals() {
    let mut r = ChannelRouting::new();
    for ch in 0..16u8 {
        assert_eq!(r.part_for_channel(ch), None);
    }
    r.set_channel_for_part(0, Some(3));
    assert_eq!(r.part_for_channel(3), Some(0));
    assert_eq!(r.channel_for_part(0), Some(3));

    // Part 1 takes channel 3 from part 0.
    r.set_channel_for_part(1, Some(3));
    assert_eq!(r.part_for_channel(3), Some(1));
    assert_eq!(r.channel_for_part(0), None);

    // Moving part 1 frees its old channel.
    r.set_channel_for_part(1, Some(5));
    assert_eq!(r.part_for_channel(3), None);
    assert_eq!(r.part_for_channel(5), Some(1));
    assert_eq!(r.channel_for_part(1), Some(5));

    r.set_channel_for_part(1, None);
    assert_eq!(r.channel_for_part(1), None);
}

#[test]
fn channel_pick_past_sixteen_only_unassigns() {
    let mut r = ChannelRouting::new();
    r.set_channel(2, Some(3));
    r.set_channel(7, Some(3));
    assert_eq!(r.channel_for_part(3), Some(2));
    r.set_channel_for_part(3, Some(16));
    assert_eq!(r.channel_for_part(3), None);
    r.set_channel(20, Some(1));
    assert_eq!(r.part_for_channel(20), None);
    assert_eq!(r.channel_for_part(1), None);
}

#[test]
fn reset_fires_on_timely_second_tap() {
    let mut r = ResetArm::new();
    assert!(!r.is_armed());
    assert!(!r.tap(1_000));
    assert!(r.is_armed());
    r.tick(1_000 + RESET_DISARM_MS - 1);
    assert!(r.is_armed());
    assert!(r.tap(2_500));
    assert!(!r.is_armed());
}

#[test]
fn reset_arm_lapses_after_three_seconds() {
    let mut r = ResetArm::new();
    r.tap(10_000);
    r.tick(13_000);
    assert!(!r.is_armed());
    // The next tap arms again rather than firing.
    assert!(!r.tap(13_100));
    assert!(r.is_armed());
}

#[test]
fn learn_destination_splits_fx_slot_at_first_colon() {
    assert_eq!(
        learn_target("Delay:time"),
        LearnTarget::Fx("Delay".to_string(), "time".to_string())
    );
    assert_eq!(
        learn_target("Reverb:mix:wet"),
        LearnTarget::Fx("Reverb".to_string(), "mix:wet".to_string())
    );
    assert_eq!(learn_target("FilterCutoff"), LearnTarget::Engine("FilterCutoff".to_string()));
    assert_eq!(learn_target(":x"), LearnTarget::Fx(String::new(), "x".to_string()));
}

#[test]
fn mixer_restore_takes_snapshot_mutes_and_clears_solo() {
    let mut m = MixSolo::new();
    m.toggle_solo(1);
    let msgs = m.restore([true, true, false, false]);
    assert_eq!(msgs, vec![(1, true), (2, false), (3, false)]);
    assert_eq!(m.solo(), None);
    assert!(m.is_muted(0) && m.is_muted(1) && !m.is_muted(2) && !m.is_muted(3));
    assert!(m.restore([true, true, false, false]).is_empty());
}
