use brume::controllers::{LaunchControlXl3, NanoKontrol2, PageFlags, SurfaceAction};

/// Records every action a surface asks for, with the CC value the app
/// would pass along.
#[derive(Default)]
struct MockApi {
    on_mix: bool,
    on_mod: bool,
    on_script: bool,
    levels: Vec<(u8, f32)>,
    mutes: Vec<u8>,
    solos: Vec<u8>,
    engine_cycles: Vec<i32>,
    sub_tab_cycles: Vec<i32>,
    engine_selects: Vec<u8>,
    sub_tab_selects: Vec<u8>,
    fx_knobs: Vec<(usize, f32)>,
    mod_knobs: Vec<(usize, f32)>,
    script_knobs: Vec<(usize, f32)>,
}

impl MockApi {
    fn page(&self) -> PageFlags {
        PageFlags { on_mix: self.on_mix, on_mod: self.on_mod, on_script: self.on_script }
    }

    fn apply(&mut self, action: Option<SurfaceAction>, value: f32) {
        match action {
            Some(SurfaceAction::SetPartLevel(p)) => self.levels.push((p, value.clamp(0.0, 1.0))),
            Some(SurfaceAction::FxKnob(s)) => self.fx_knobs.push((s, value)),
            Some(SurfaceAction::ModKnob(s)) => self.mod_knobs.push((s, value)),
            Some(SurfaceAction::ScriptKnob(s)) => self.script_knobs.push((s, value)),
            Some(SurfaceAction::ToggleSolo(p)) => self.solos.push(p),
            Some(SurfaceAction::ToggleMute(p)) => self.mutes.push(p),
            Some(SurfaceAction::CycleEngine(d)) => self.engine_cycles.push(d),
            Some(SurfaceAction::CycleSubTab(d)) => self.sub_tab_cycles.push(d),
            Some(SurfaceAction::SelectEngine(i)) => self.engine_selects.push(i),
            Some(SurfaceAction::SelectSubTab(i)) => self.sub_tab_selects.push(i),
            None => {}
        }
    }
}

fn nk_cc(api: &mut MockApi, cc: u8, value: f32) {
    let a = NanoKontrol2.handle_cc(&api.page(), cc, value > 0.0);
    api.apply(a, value);
}

fn lc_cc(api: &mut MockApi, cc: u8, value: f32) {
    let a = LaunchControlXl3.handle_cc(&api.page(), cc, value > 0.0);
    api.apply(a, value);
}

// ─── nanoKONTROL2 ───────────────────────────────────────────────────

#[test]
fn nanokontrol2_id_is_stable() {
    assert_eq!(NanoKontrol2.id(), "nanoKONTROL2");
}

#[test]
fn matches_port_is_case_insensitive_substring() {
    let nk = NanoKontrol2;
    assert!(nk.matches_port("nanoKONTROL2:nanoKONTROL2 _ CTRL 20:0"));
    assert!(nk.matches_port("NanoKontrol2 SLIDER/KNOB"));
    assert!(!nk.matches_port("Launch Control XL"));
}

#[test]
fn nanokontrol2_rt_knob_slot_covers_top_row_only() {
    let nk = NanoKontrol2;
    assert_eq!(nk.rt_knob_slot(15), None);
    assert_eq!(nk.rt_knob_slot(16), Some(0));
    assert_eq!(nk.rt_knob_slot(23), Some(7));
    assert_eq!(nk.rt_knob_slot(24), None);
    assert_eq!(nk.rt_knob_slot(0), None);
}

#[test]
fn sliders_drive_part_levels() {
    let mut api = MockApi::default();
    nk_cc(&mut api, 0, 0.5);
    nk_cc(&mut api, 3, 1.0);
    assert_eq!(api.levels, vec![(0, 0.5), (3, 1.0)]);
}

#[test]
fn knobs_fall_through_to_fx_on_mix_page() {
    let mut api = MockApi { on_mix: true, ..Default::default() };
    nk_cc(&mut api, 16, 0.25);
    nk_cc(&mut api, 23, 0.75);
    assert_eq!(api.fx_knobs, vec![(0, 0.25), (7, 0.75)]);
    assert!(api.mod_knobs.is_empty());
}

#[test]
fn knobs_fall_through_to_mod_on_mod_page() {
    let mut api = MockApi { on_mod: true, ..Default::default() };
    nk_cc(&mut api, 18, 0.5);
    assert_eq!(api.mod_knobs, vec![(2, 0.5)]);
    assert!(api.fx_knobs.is_empty());
}

#[test]
fn knobs_fall_through_to_script_on_script_page() {
    let mut api = MockApi { on_script: true, ..Default::default() };
    nk_cc(&mut api, 16, 0.0);
    nk_cc(&mut api, 23, 1.0);
    assert_eq!(api.script_knobs, vec![(0, 0.0), (7, 1.0)]);
    assert!(api.fx_knobs.is_empty());
    assert!(api.mod_knobs.is_empty());
}

#[test]
fn knobs_drop_on_other_pages() {
    let mut api = MockApi::default();
    nk_cc(&mut api, 16, 0.5);
    assert!(api.fx_knobs.is_empty());
    assert!(api.mod_knobs.is_empty());
}

#[test]
fn s_buttons_press_only() {
    let mut api = MockApi::default();
    nk_cc(&mut api, 32, 1.0);
    nk_cc(&mut api, 32, 0.0);
    nk_cc(&mut api, 35, 1.0);
    assert_eq!(api.solos, vec![0, 3]);
}

#[test]
fn s_buttons_5_through_8_drop() {
    let mut api = MockApi::default();
    nk_cc(&mut api, 36, 1.0);
    nk_cc(&mut api, 39, 1.0);
    assert!(api.solos.is_empty());
}

#[test]
fn m_buttons_press_only() {
    let mut api = MockApi::default();
    nk_cc(&mut api, 48, 1.0);
    nk_cc(&mut api, 51, 1.0);
    assert_eq!(api.mutes, vec![0, 3]);
}

#[test]
fn track_buttons_cycle_engine() {
    let mut api = MockApi::default();
    nk_cc(&mut api, 58, 1.0);
    nk_cc(&mut api, 59, 1.0);
    assert_eq!(api.engine_cycles, vec![-1, 1]);
}

#[test]
fn marker_buttons_cycle_sub_tab() {
    let mut api = MockApi::default();
    nk_cc(&mut api, 61, 1.0);
    nk_cc(&mut api, 62, 1.0);
    assert_eq!(api.sub_tab_cycles, vec![-1, 1]);
}

#[test]
fn release_edges_dont_fire_buttons() {
    let mut api = MockApi::default();
    nk_cc(&mut api, 58, 0.0);
    nk_cc(&mut api, 59, 0.0);
    nk_cc(&mut api, 32, 0.0);
    nk_cc(&mut api, 48, 0.0);
    assert!(api.engine_cycles.is_empty());
    assert!(api.solos.is_empty());
    assert!(api.mutes.is_empty());
}

#[test]
fn nanokontrol2_unmapped_ccs_silently_drop() {
    let mut api = MockApi::default();
    nk_cc(&mut api, 100, 1.0);
    assert!(api.levels.is_empty());
    assert!(api.fx_knobs.is_empty());
    assert!(api.mod_knobs.is_empty());
    assert!(api.solos.is_empty());
    assert!(api.mutes.is_empty());
    assert!(api.engine_cycles.is_empty());
    assert!(api.sub_tab_cycles.is_empty());
}

// ─── Launch Control XL 3 ────────────────────────────────────────────

#[test]
fn launch_control_xl3_id_is_stable() {
    assert_eq!(LaunchControlXl3.id(), "LCXL3");
}

#[test]
fn matches_port_picks_surface_excludes_daw_and_din() {
    let lc = LaunchControlXl3;
    assert!(lc.matches_port("LCXL3 1:LCXL3 1 MIDI In 16:0"));
    assert!(lc.matches_port("LCXL3 1 MIDI Out"));
    assert!(lc.matches_port("Launch Control XL 3 MIDI"));
    assert!(lc.matches_port("Launch Control XL"));
    assert!(!lc.matches_port("LCXL3 1:LCXL3 1 DAW In 16:1"));
    assert!(!lc.matches_port("LCXL3 1 To DIN Out"));
    assert!(!lc.matches_port("LCXL3 1 To DIN Out 2"));
    assert!(!lc.matches_port("nanoKONTROL2:nanoKONTROL2 _ CTRL 20:0"));
}

#[test]
fn launch_control_xl3_rt_knob_slot_covers_top_row_only() {
    let lc = LaunchControlXl3;
    assert_eq!(lc.rt_knob_slot(12), None);
    assert_eq!(lc.rt_knob_slot(13), Some(0));
    assert_eq!(lc.rt_knob_slot(20), Some(7));
    assert_eq!(lc.rt_knob_slot(21), None);
    assert_eq!(lc.rt_knob_slot(0), None);
}

#[test]
fn faders_1_to_4_drive_part_levels() {
    let mut api = MockApi::default();
    lc_cc(&mut api, 5, 0.5);
    lc_cc(&mut api, 8, 1.0);
    assert_eq!(api.levels, vec![(0, 0.5), (3, 1.0)]);
}

#[test]
fn faders_5_to_8_drop() {
    let mut api = MockApi::default();
    lc_cc(&mut api, 9, 0.5);
    lc_cc(&mut api, 12, 1.0);
    assert!(api.levels.is_empty());
}

#[test]
fn encoder_row_1_falls_through_to_fx_on_mix() {
    let mut api = MockApi { on_mix: true, ..Default::default() };
    lc_cc(&mut api, 13, 0.25);
    lc_cc(&mut api, 20, 0.75);
    assert_eq!(api.fx_knobs, vec![(0, 0.25), (7, 0.75)]);
    assert!(api.mod_knobs.is_empty());
}

#[test]
fn encoder_row_1_falls_through_to_mod_on_mod() {
    let mut api = MockApi { on_mod: true, ..Default::default() };
    lc_cc(&mut api, 15, 0.5);
    assert_eq!(api.mod_knobs, vec![(2, 0.5)]);
    assert!(api.fx_knobs.is_empty());
}

#[test]
fn encoder_row_1_falls_through_to_script_on_script() {
    let mut api = MockApi { on_script: true, ..Default::default() };
    lc_cc(&mut api, 13, 0.0);
    lc_cc(&mut api, 20, 1.0);
    assert_eq!(api.script_knobs, vec![(0, 0.0), (7, 1.0)]);
    assert!(api.fx_knobs.is_empty());
    assert!(api.mod_knobs.is_empty());
}

#[test]
fn encoder_row_1_drops_on_engine_pages() {
    let mut api = MockApi::default();
    lc_cc(&mut api, 13, 0.5);
    lc_cc(&mut api, 20, 0.5);
    assert!(api.fx_knobs.is_empty());
    assert!(api.mod_knobs.is_empty());
    assert!(api.script_knobs.is_empty());
}

#[test]
fn encoder_rows_2_and_3_silently_drop() {
    let mut api = MockApi { on_mix: true, ..Default::default() };
    for cc in 21..=36 {
        lc_cc(&mut api, cc, 0.5);
    }
    assert!(api.fx_knobs.is_empty());
    assert!(api.mod_knobs.is_empty());
}

#[test]
fn pads_top_1_to_4_select_engine() {
    let mut api = MockApi::default();
    lc_cc(&mut api, 37, 1.0);
    lc_cc(&mut api, 37, 0.0);
    lc_cc(&mut api, 38, 1.0);
    lc_cc(&mut api, 39, 1.0);
    lc_cc(&mut api, 40, 1.0);
    assert_eq!(api.engine_selects, vec![0, 0, 1, 2, 3]);
    assert!(api.engine_cycles.is_empty());
}

#[test]
fn pads_top_5_to_8_silently_drop() {
    let mut api = MockApi::default();
    for cc in 41..=44 {
        lc_cc(&mut api, cc, 1.0);
        lc_cc(&mut api, cc, 0.0);
    }
    assert!(api.engine_selects.is_empty());
    assert!(api.sub_tab_selects.is_empty());
}

#[test]
fn pads_bot_1_to_6_select_sub_tab() {
    let mut api = MockApi::default();
    lc_cc(&mut api, 45, 1.0);
    lc_cc(&mut api, 45, 0.0);
    lc_cc(&mut api, 46, 1.0);
    lc_cc(&mut api, 47, 1.0);
    lc_cc(&mut api, 48, 1.0);
    lc_cc(&mut api, 49, 1.0);
    lc_cc(&mut api, 50, 1.0);
    assert_eq!(api.sub_tab_selects, vec![0, 0, 1, 2, 3, 4, 5]);
    assert!(api.sub_tab_cycles.is_empty());
}

#[test]
fn pads_bot_7_and_8_silently_drop() {
    let mut api = MockApi::default();
    lc_cc(&mut api, 51, 1.0);
    lc_cc(&mut api, 52, 1.0);
    assert!(api.sub_tab_selects.is_empty());
}

#[test]
fn launch_control_xl3_unmapped_ccs_silently_drop() {
    let mut api = MockApi::default();
    lc_cc(&mut api, 1, 1.0);
    lc_cc(&mut api, 100, 1.0);
    lc_cc(&mut api, 127, 1.0);
    assert!(api.levels.is_empty());
    assert!(api.fx_knobs.is_empty());
    assert!(api.mod_knobs.is_empty());
    assert!(api.mutes.is_empty());
    assert!(api.solos.is_empty());
    assert!(api.engine_cycles.is_empty());
    assert!(api.sub_tab_cycles.is_empty());
}

// ─── Laws and edge cases on concrete values ─────────────────────────

#[test]
fn every_surface_action_is_in_range() {
    let pages = [
        PageFlags { on_mix: false, on_mod: false, on_script: false },
        PageFlags { on_mix: true, on_mod: false, on_script: false },
        PageFlags { on_mix: false, on_mod: true, on_script: false },
        PageFlags { on_mix: false, on_mod: false, on_script: true },
    ];
    for page in pages {
        for cc in 0..=127u8 {
            for pressed in [false, true] {
                for a in [NanoKontrol2.handle_cc(&page, cc, pressed), LaunchControlXl3.handle_cc(&page, cc, pressed)] {
                    match a {
                        Some(SurfaceAction::SetPartLevel(p)) => assert!(p < 4),
                        Some(SurfaceAction::FxKnob(s)) | Some(SurfaceAction::ModKnob(s)) | Some(SurfaceAction::ScriptKnob(s)) => assert!(s < 8),
                        Some(SurfaceAction::ToggleSolo(p)) | Some(SurfaceAction::ToggleMute(p)) => assert!(p < 4),
                        Some(SurfaceAction::CycleEngine(d)) | Some(SurfaceAction::CycleSubTab(d)) => assert!(d == 1 || d == -1),
                        Some(SurfaceAction::SelectEngine(i)) => assert!(i < 4),
                        Some(SurfaceAction::SelectSubTab(i)) => assert!(i < 6),
                        None => {}
                    }
                }
            }
        }
    }
}

#[test]
fn lowercasing_is_applied_before_matching() {
    assert!(NanoKontrol2.matches_port("NANOKONTROL2"));
    assert!(LaunchControlXl3.matches_port("LAUNCH CONTROL XL"));
    assert!(!LaunchControlXl3.matches_port("LAUNCH CONTROL XL DAW"));
}

#[test]
fn lcxl3_ignores_press_state() {
    let page = PageFlags { on_mix: false, on_mod: false, on_script: false };
    assert_eq!(LaunchControlXl3.handle_cc(&page, 37, false), Some(SurfaceAction::SelectEngine(0)));
    assert_eq!(LaunchControlXl3.handle_cc(&page, 37, true), Some(SurfaceAction::SelectEngine(0)));
}
