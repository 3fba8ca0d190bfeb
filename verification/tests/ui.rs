use brume::shapes::{shape_display_name, shape_from_name, ShapeCategory, TransitionShape};
use brume::ui::{
    audio_device_short, chord_voicing, clock_source_label, clock_source_wire, cycle_index, dismissed_at,
    key_to_midi, or_dash,
    parse_channel_option, perf_landing_mode, shift_octave, wordmark_visible_at, Mode, Navigation, Page,
    SplashState,
};

const ALL_SHAPES: [TransitionShape; 24] = [
    TransitionShape::LinearUp,
    TransitionShape::LinearDown,
    TransitionShape::ExpAttack,
    TransitionShape::ExpDecay,
    TransitionShape::LogAttack,
    TransitionShape::LogDecay,
    TransitionShape::CircularIn,
    TransitionShape::CircularOut,
    TransitionShape::CircularInOut,
    TransitionShape::CircularOutIn,
    TransitionShape::BloomIn,
    TransitionShape::BloomOut,
    TransitionShape::SCurveSmooth,
    TransitionShape::SCurveSharp,
    TransitionShape::SlowStart,
    TransitionShape::SlowEnd,
    TransitionShape::FastStart,
    TransitionShape::FastEnd,
    TransitionShape::BounceIn,
    TransitionShape::BounceOut,
    TransitionShape::ChaosLight,
    TransitionShape::ChaosHeavy,
    TransitionShape::Random,
    TransitionShape::DC,
];

#[test]
fn shape_names_and_categories() {
    assert_eq!(TransitionShape::ChaosHeavy.name(), "Caffeinated");
    assert_eq!(TransitionShape::DC.name(), "Guillotine");
    assert_eq!(TransitionShape::SlowEnd.name(), "Lazy Landing");
    assert_eq!(TransitionShape::LinearUp.category(), ShapeCategory::Linear);
    assert_eq!(TransitionShape::Random.category(), ShapeCategory::Chaos);
    assert_eq!(TransitionShape::DC.category(), ShapeCategory::Direct);
    assert_eq!(TransitionShape::CircularOutIn.category(), ShapeCategory::Circular);
    assert_eq!(TransitionShape::default(), TransitionShape::ChaosHeavy);
}

#[test]
fn shape_short_names_roundtrip() {
    for s in ALL_SHAPES {
        assert_eq!(shape_from_name(shape_display_name(s)), s);
    }
    assert_eq!(shape_from_name("Silk"), TransitionShape::SCurveSmooth);
    assert_eq!(shape_from_name("nonsense"), TransitionShape::LinearUp);
}

#[test]
fn cycle_index_wraps_both_ways() {
    assert_eq!(cycle_index(0, 4, -1), 3);
    assert_eq!(cycle_index(3, 4, 1), 0);
    assert_eq!(cycle_index(1, 4, 6), 3);
    assert_eq!(cycle_index(2, 5, -12), 0);
    for c in 0..5usize {
        assert_eq!(cycle_index(cycle_index(c, 5, 3), 5, -3), c);
    }
}

#[test]
fn modes() {
    assert_eq!(Mode::Granular.part(), 3);
    assert_eq!(Mode::Harmonic.label(), "HARMONIC");
    assert_eq!(Mode::from_index(2), Some(Mode::Timbral));
    assert_eq!(Mode::from_index(4), None);
}

#[test]
fn engine_and_sub_tab_navigation() {
    let mut nav = Navigation::new([6, 5, 5, 6]);
    assert_eq!(nav.page(), Page::Engine(Mode::Fm));
    nav.cycle_engine(-1);
    assert_eq!(nav.page(), Page::Engine(Mode::Granular));
    nav.cycle_engine(1);
    assert_eq!(nav.page(), Page::Engine(Mode::Fm));
    nav.select_engine(1);
    assert_eq!(nav.page(), Page::Engine(Mode::Harmonic));
    assert_eq!(nav.active_part(), 1);
    nav.select_engine(7);
    assert_eq!(nav.page(), Page::Engine(Mode::Harmonic));
    nav.cycle_sub_tab(-1);
    assert_eq!(nav.active_sub_tab_for(Mode::Harmonic), 4);
    nav.select_sub_tab(5);
    assert_eq!(nav.active_sub_tab_for(Mode::Harmonic), 4);
    nav.select_sub_tab(2);
    assert_eq!(nav.active_sub_tab_for(Mode::Harmonic), 2);
    nav.set_page(Page::Mix);
    nav.cycle_sub_tab(1);
    assert_eq!(nav.active_fx_tab(), 1);
    nav.select_sub_tab(3);
    assert_eq!(nav.active_fx_tab(), 3);
    nav.select_sub_tab(4);
    assert_eq!(nav.active_fx_tab(), 3);
    assert_eq!(nav.active_part(), 0);
    nav.cycle_engine(1);
    assert_eq!(nav.page(), Page::Engine(Mode::Harmonic));
    nav.set_page(Page::Sys);
    nav.cycle_sub_tab(1);
    assert_eq!(nav.active_fx_tab(), 3);
}

#[test]
fn empty_tab_list_clamps_to_zero() {
    let mut nav = Navigation::new([0, 5, 5, 6]);
    nav.cycle_sub_tab(1);
    assert_eq!(nav.active_sub_tab_for(Mode::Fm), 0);
}

#[test]
fn keyboard_notes() {
    assert_eq!(key_to_midi(4, 0), 60);
    assert_eq!(key_to_midi(-1, 0), 0);
    assert_eq!(key_to_midi(9, 12), 127);
    assert_eq!(chord_voicing(false, 60), vec![60]);
    assert_eq!(chord_voicing(true, 60), vec![60, 64, 67]);
    assert_eq!(chord_voicing(true, 125), vec![125, 127, 127]);
    assert_eq!(shift_octave(9, true), 9);
    assert_eq!(shift_octave(-1, false), -1);
    assert_eq!(shift_octave(4, true), 5);
}

#[test]
fn splash_timeline() {
    assert!(!wordmark_visible_at(899));
    assert!(wordmark_visible_at(900));
    assert!(!dismissed_at(5_499));
    assert!(dismissed_at(5_500));
    let splash = SplashState::new();
    assert!(!splash.dismissed());
    assert!(splash.elapsed_ms() < 5_500);
}

#[test]
fn device_names() {
    assert_eq!(audio_device_short(""), "—");
    assert_eq!(audio_device_short("plughw:CARD=UAC2Gadget,DEV=0"), "MERIDIAN");
    assert_eq!(audio_device_short("hw:CARD=vc4hdmi0"), "HDMI 0");
    assert_eq!(audio_device_short("vc4-hdmi-1"), "HDMI 1");
    assert_eq!(audio_device_short("hw:X"), "hw:X");
    assert_eq!(or_dash(""), "--");
    assert_eq!(or_dash("42 C"), "42 C");
}

#[test]
fn channel_options() {
    assert_eq!(parse_channel_option("CH 1"), Some(0));
    assert_eq!(parse_channel_option("CH 16"), Some(15));
    assert_eq!(parse_channel_option("CH 17"), None);
    assert_eq!(parse_channel_option("CH 0"), None);
    assert_eq!(parse_channel_option("NONE"), None);
    assert_eq!(parse_channel_option("CH +3"), Some(2));
    assert_eq!(parse_channel_option("CH 300"), None);
    assert_eq!(parse_channel_option("CH "), None);
    for c in 0..16u8 {
        assert_eq!(parse_channel_option(&format!("CH {}", c + 1)), Some(c));
    }
}

#[test]
fn mix_page_lua_tab_is_selectable_and_cycles_back() {
    let mut nav = Navigation::new([6, 5, 5, 6]);
    nav.set_page(Page::Mix);
    nav.switch_fx_tab(4);
    assert_eq!(nav.active_fx_tab(), 4);
    nav.switch_fx_tab(7);
    assert_eq!(nav.active_fx_tab(), 4);
    nav.cycle_sub_tab(1);
    assert_eq!(nav.active_fx_tab(), 1);
    nav.switch_fx_tab(2);
    assert_eq!(nav.active_fx_tab(), 2);
}

#[test]
fn modes_have_library_names() {
    for (mode, name) in [
        (Mode::Fm, "fm"),
        (Mode::Harmonic, "harmonic"),
        (Mode::Timbral, "timbral"),
        (Mode::Granular, "granular"),
    ] {
        assert_eq!(mode.name(), name);
        assert_eq!(Mode::from_name(name), Some(mode));
    }
    assert_eq!(Mode::from_name("fx"), None);
    assert_eq!(Mode::from_name("FM"), None);
}

#[test]
fn loaded_perf_lands_on_first_filled_part() {
    let s = |v: &str| Some(v.to_string());
    assert_eq!(perf_landing_mode(&vec![None, s("timbral"), s("harmonic"), None]), Mode::Timbral);
    assert_eq!(perf_landing_mode(&vec![None, None, None, None]), Mode::Fm);
    assert_eq!(perf_landing_mode(&vec![s("weird"), s("granular"), None, None]), Mode::Fm);
    assert_eq!(perf_landing_mode(&vec![None, None, None, s("granular")]), Mode::Granular);
}

#[test]
fn clock_sources_label_and_wire_names() {
    assert_eq!(clock_source_label(0), "Off");
    assert_eq!(clock_source_label(1), "Master");
    assert_eq!(clock_source_label(2), "Sync");
    assert_eq!(clock_source_label(9), "Off");
    assert_eq!(clock_source_wire(0), Some("off"));
    assert_eq!(clock_source_wire(1), Some("master"));
    assert_eq!(clock_source_wire(2), Some("external"));
    assert_eq!(clock_source_wire(3), None);
}

#[test]
fn display_names_are_distinct_and_parse_without_spaces() {
    for (i, a) in ALL_SHAPES.iter().enumerate() {
        assert!(!a.name().is_empty());
        assert_eq!(shape_from_name(&a.name().replace(' ', "")), *a);
        assert_eq!(shape_from_name(shape_display_name(*a)), *a);
        for b in ALL_SHAPES.iter().skip(i + 1) {
            assert_ne!(a.name(), b.name());
        }
    }
    assert_eq!(shape_from_name("Slow Burn"), TransitionShape::LinearUp);
    assert_eq!(shape_from_name("silk"), TransitionShape::LinearUp);
    assert_eq!(shape_from_name(""), TransitionShape::LinearUp);
}
