//! Control-surface drivers: which MIDI ports a surface owns, which CCs
//! take the audio-priority knob path, and what action each remaining CC
//! asks of the app.
//!
//! A driver decides; the app acts. `handle_cc` returns the action for a
//! CC (or `None` when the CC is unbound) and the app applies it, passing
//! the CC's value through: part levels are clamped to 0..=1 by the app,
//! knob actions receive the raw ratio.

use vstd::prelude::*;
use crate::text::{contains_seq, str_contains, str_to_lowercase, unicode_lowercase};

verus! {

/// Which utility page is showing, as far as knob fall-through goes.
#[derive(Debug, Clone, Copy, PartialEq, Eq, Structural)]
pub struct PageFlags {
    pub on_mix: bool,
    pub on_mod: bool,
    pub on_script: bool,
}

/// An action a control surface asks of the app.
#[derive(Debug, Clone, Copy, PartialEq, Eq, Structural)]
pub enum SurfaceAction {
    /// Set part `p`'s output level to the CC value.
    SetPartLevel(u8),
    /// Drive FX knob slot `s` with the CC value.
    FxKnob(usize),
    /// Drive modulation knob slot `s` with the CC value.
    ModKnob(usize),
    /// Drive script parameter knob slot `s` with the CC value.
    ScriptKnob(usize),
    /// Toggle solo on part `p`.
    ToggleSolo(u8),
    /// Toggle mute on part `p`.
    ToggleMute(u8),
    /// Move the visible engine by this many steps.
    CycleEngine(i32),
    /// Move the active sub-tab by this many steps.
    CycleSubTab(i32),
    /// Show engine `i` directly.
    SelectEngine(u8),
    /// Show sub-tab `i` directly.
    SelectSubTab(u8),
}

/// The knob action for slot `slot` on the showing page: FX on MIX,
/// modulation on MOD, script parameters on SCRIPT, nothing elsewhere.
pub open spec fn knob_fallthrough(page: PageFlags, slot: usize) -> Option<SurfaceAction> {
    if page.on_mix {
        Some(SurfaceAction::FxKnob(slot))
    } else if page.on_mod {
        Some(SurfaceAction::ModKnob(slot))
    } else if page.on_script {
        Some(SurfaceAction::ScriptKnob(slot))
    } else {
        None
    }
}

fn knob_action(page: &PageFlags, slot: usize) -> (r: Option<SurfaceAction>)
    ensures
        r == knob_fallthrough(*page, slot),
{
    if page.on_mix {
        Some(SurfaceAction::FxKnob(slot))
    } else if page.on_mod {
        Some(SurfaceAction::ModKnob(slot))
    } else if page.on_script {
        Some(SurfaceAction::ScriptKnob(slot))
    } else {
        None
    }
}

/// Every index an action carries names something that exists: one of
/// four parts, one of eight knob slots, one of four engines, one of six
/// sub-tabs, and cycling moves by one step.
pub open spec fn action_in_range(a: SurfaceAction) -> bool {
    match a {
        SurfaceAction::SetPartLevel(p) => p < 4,
        SurfaceAction::FxKnob(s) => s < 8,
        SurfaceAction::ModKnob(s) => s < 8,
        SurfaceAction::ScriptKnob(s) => s < 8,
        SurfaceAction::ToggleSolo(p) => p < 4,
        SurfaceAction::ToggleMute(p) => p < 4,
        SurfaceAction::CycleEngine(d) => d == 1 || d == -1,
        SurfaceAction::CycleSubTab(d) => d == 1 || d == -1,
        SurfaceAction::SelectEngine(i) => i < 4,
        SurfaceAction::SelectSubTab(i) => i < 6,
    }
}

// ─── Korg nanoKONTROL2 (factory CC mode) ───────────────────────────

/// Korg nanoKONTROL2 driver, factory CC mode. Stateless.
pub struct NanoKontrol2;

/// The nanoKONTROL2 dispatch table. Sliders 1..4 (CC 0..3) set part
/// levels on any page; knobs 1..8 (CC 16..23) fall through by page;
/// buttons act on press only: S 1..4 (CC 32..35) solo, M 1..4
/// (CC 48..51) mute, Track ◀/▶ (CC 58/59) cycle the engine, Marker ◀/▶
/// (CC 61/62) cycle the sub-tab.
pub open spec fn nano_action(page: PageFlags, cc: u8, pressed: bool) -> Option<SurfaceAction> {
    if cc <= 3 {
        Some(SurfaceAction::SetPartLevel(cc))
    } else if 16 <= cc <= 23 {
        knob_fallthrough(page, (cc - 16) as usize)
    } else if !pressed {
        None
    } else if 32 <= cc <= 35 {
        Some(SurfaceAction::ToggleSolo((cc - 32) as u8))
    } else if 48 <= cc <= 51 {
        Some(SurfaceAction::ToggleMute((cc - 48) as u8))
    } else if cc == 58 {
        Some(SurfaceAction::CycleEngine(-1i32))
    } else if cc == 59 {
        Some(SurfaceAction::CycleEngine(1i32))
    } else if cc == 61 {
        Some(SurfaceAction::CycleSubTab(-1i32))
    } else if cc == 62 {
        Some(SurfaceAction::CycleSubTab(1i32))
    } else {
        None
    }
}

impl NanoKontrol2 {
    /// Stable identifier of this surface.
    pub fn id(&self) -> (r: &'static str)
        ensures
            r@ == "nanoKONTROL2"@,
    {
        "nanoKONTROL2"
    }

    /// Whether a MIDI port belongs to this surface: its name contains
    /// `nanokontrol2`, ignoring case.
    pub fn matches_port(&self, port_name: &str) -> (r: bool)
        ensures
            r == contains_seq(unicode_lowercase(port_name@), "nanokontrol2"@),
    {
        let lower = str_to_lowercase(port_name);
        str_contains(lower.as_str(), "nanokontrol2")
    }

    /// The knob slot a CC drives on the audio-priority path: knobs 1..8
    /// (CC 16..23) map to slots 0..7.
    pub fn rt_knob_slot(&self, cc: u8) -> (r: Option<usize>)
        ensures
            r == (if 16 <= cc <= 23 {
                Some((cc - 16) as usize)
            } else {
                None::<usize>
            }),
    {
        if 16 <= cc && cc <= 23 {
            Some((cc - 16) as usize)
        } else {
            None
        }
    }

    /// The action for a CC that reached UI dispatch. `pressed` tells a
    /// button's press edge (non-zero value) from its release.
    pub fn handle_cc(&self, page: &PageFlags, cc: u8, pressed: bool) -> (r: Option<SurfaceAction>)
        ensures
            r == nano_action(*page, cc, pressed),
    {
        if cc <= 3 {
            return Some(SurfaceAction::SetPartLevel(cc));
        }
        if 16 <= cc && cc <= 23 {
            return knob_action(page, (cc - 16) as usize);
        }
        if !pressed {
            return None;
        }
        if 32 <= cc && cc <= 35 {
            Some(SurfaceAction::ToggleSolo(cc - 32))
        } else if 48 <= cc && cc <= 51 {
            Some(SurfaceAction::ToggleMute(cc - 48))
        } else if cc == 58 {
            Some(SurfaceAction::CycleEngine(-1))
        } else if cc == 59 {
            Some(SurfaceAction::CycleEngine(1))
        } else if cc == 61 {
            Some(SurfaceAction::CycleSubTab(-1))
        } else if cc == 62 {
            Some(SurfaceAction::CycleSubTab(1))
        } else {
            None
        }
    }
}

// ─── Novation Launch Control XL 3 (default custom mode) ────────────

/// Novation Launch Control XL 3 driver, default custom mode. Stateless.
pub struct LaunchControlXl3;

/// The LCXL3 dispatch table. Faders 1..4 (CC 5..8) set part levels on
/// any page; encoder row 1 (CC 13..20) falls through by page; top pads
/// 1..4 (CC 37..40) select an engine and bottom pads 1..6 (CC 45..50) a
/// sub-tab on every event (the pads are toggle-style, so both edges are
/// presses).
pub open spec fn lcxl3_action(page: PageFlags, cc: u8) -> Option<SurfaceAction> {
    if 5 <= cc <= 8 {
        Some(SurfaceAction::SetPartLevel((cc - 5) as u8))
    } else if 13 <= cc <= 20 {
        knob_fallthrough(page, (cc - 13) as usize)
    } else if 37 <= cc <= 40 {
        Some(SurfaceAction::SelectEngine((cc - 37) as u8))
    } else if 45 <= cc <= 50 {
        Some(SurfaceAction::SelectSubTab((cc - 45) as u8))
    } else {
        None
    }
}

/// The lowercased port name belongs to an LCXL3's surface port: it
/// names the device (`lcxl3` or `launch control xl`) and is not the DAW
/// or DIN-passthrough sibling.
pub open spec fn lcxl3_port(lower: Seq<char>) -> bool {
    (contains_seq(lower, "lcxl3"@) || contains_seq(lower, "launch control xl"@)) && !contains_seq(
        lower,
        "daw"@,
    ) && !contains_seq(lower, "din"@)
}

impl LaunchControlXl3 {
    /// Stable identifier of this surface.
    pub fn id(&self) -> (r: &'static str)
        ensures
            r@ == "LCXL3"@,
    {
        "LCXL3"
    }

    /// Whether a MIDI port is this surface's control port (case
    /// ignored): the DAW and DIN-passthrough ports are excluded.
    pub fn matches_port(&self, port_name: &str) -> (r: bool)
        ensures
            r == lcxl3_port(unicode_lowercase(port_name@)),
    {
        let lower = str_to_lowercase(port_name);
        let is_device = str_contains(lower.as_str(), "lcxl3") || str_contains(
            lower.as_str(),
            "launch control xl",
        );
        is_device && !str_contains(lower.as_str(), "daw") && !str_contains(lower.as_str(), "din")
    }

    /// The knob slot a CC drives on the audio-priority path: encoder
    /// row 1 (CC 13..20) maps to slots 0..7.
    pub fn rt_knob_slot(&self, cc: u8) -> (r: Option<usize>)
        ensures
            r == (if 13 <= cc <= 20 {
                Some((cc - 13) as usize)
            } else {
                None::<usize>
            }),
    {
        if 13 <= cc && cc <= 20 {
            Some((cc - 13) as usize)
        } else {
            None
        }
    }

    /// The action for a CC that reached UI dispatch. Every LCXL3 event
    /// counts, so `pressed` plays no part.
    pub fn handle_cc(&self, page: &PageFlags, cc: u8, pressed: bool) -> (r: Option<SurfaceAction>)
        ensures
            r == lcxl3_action(*page, cc),
    {
        if 5 <= cc && cc <= 8 {
            return Some(SurfaceAction::SetPartLevel(cc - 5));
        }
        if 13 <= cc && cc <= 20 {
            return knob_action(page, (cc - 13) as usize);
        }
        if 37 <= cc && cc <= 40 {
            Some(SurfaceAction::SelectEngine(cc - 37))
        } else if 45 <= cc && cc <= 50 {
            Some(SurfaceAction::SelectSubTab(cc - 45))
        } else {
            None
        }
    }
}

/// Law: whatever either surface asks for names an existing part, knob
/// slot, engine or sub-tab, and cycles by a single step.
pub proof fn lemma_surface_actions_in_range(page: PageFlags, cc: u8, pressed: bool)
    ensures
        nano_action(page, cc, pressed) matches Some(a) ==> action_in_range(a),
        lcxl3_action(page, cc) matches Some(a) ==> action_in_range(a),
{
}

/// Law: a CC takes the audio-priority knob path exactly when UI
/// dispatch would treat it as the same knob slot's fall-through, for
/// both surfaces.
pub proof fn lemma_knob_paths_agree(page: PageFlags, cc: u8, pressed: bool)
    ensures
        (16 <= cc <= 23) ==> nano_action(page, cc, pressed) == knob_fallthrough(page, (cc - 16) as usize),
        (13 <= cc <= 20) ==> lcxl3_action(page, cc) == knob_fallthrough(page, (cc - 13) as usize),
{
}

/// Law: on the nanoKONTROL2 a button's release edge never acts; only
/// the continuous sliders and knobs respond to a zero value.
pub proof fn lemma_nano_release_is_inert(page: PageFlags, cc: u8)
    requires
        cc > 3,
        !(16 <= cc <= 23),
    ensures
        nano_action(page, cc, false) is None,
{
}

/// Law: each nanoKONTROL2 part action comes from that part's own
/// control: slider `p + 1` (CC `p`) for its level, S button `p + 1`
/// (CC `32 + p`) for its solo, M button `p + 1` (CC `48 + p`) for its
/// mute; the S and M buttons 5 to 8 (CC 36..=39, 52..=55) do nothing.
pub proof fn lemma_nano_parts_have_own_controls(page: PageFlags, cc: u8, pressed: bool, p: u8)
    ensures
        nano_action(page, cc, pressed) == Some(SurfaceAction::SetPartLevel(p)) ==> cc == p && p < 4,
        nano_action(page, cc, pressed) == Some(SurfaceAction::ToggleSolo(p)) ==> cc == 32 + p && p < 4,
        nano_action(page, cc, pressed) == Some(SurfaceAction::ToggleMute(p)) ==> cc == 48 + p && p < 4,
        (36 <= cc <= 39 || 52 <= cc <= 55) ==> nano_action(page, cc, pressed) is None,
{
}

/// Law: each LCXL3 action comes from its own control: fader `p + 1`
/// (CC `5 + p`) sets part `p`'s level, top pad `i + 1` (CC `37 + i`)
/// selects engine `i`, bottom pad `i + 1` (CC `45 + i`) selects sub-tab
/// `i`.
pub proof fn lemma_lcxl3_controls_are_positional(page: PageFlags, cc: u8, i: u8)
    ensures
        lcxl3_action(page, cc) == Some(SurfaceAction::SetPartLevel(i)) ==> cc == 5 + i && i < 4,
        lcxl3_action(page, cc) == Some(SurfaceAction::SelectEngine(i)) ==> cc == 37 + i && i < 4,
        lcxl3_action(page, cc) == Some(SurfaceAction::SelectSubTab(i)) ==> cc == 45 + i && i < 6,
{
}

} // verus!
