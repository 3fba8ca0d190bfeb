//! Front-panel logic of the native UI: engine and sub-tab navigation,
//! the on-screen keyboard's note mapping, the splash timeline, and the
//! small text conversions behind the MIDI and SYS pages.

use vstd::prelude::*;
use crate::text::{chars_of, concat_str, contains_seq, owned, str_contains, str_eq, str_starts_with, is_prefix};

verus! {

/// Synth engine assignment for the four parts; doubles as the engine
/// page id.
#[derive(Debug, Clone, Copy, PartialEq, Eq, Structural)]
pub enum Mode {
    Fm,
    Harmonic,
    Timbral,
    Granular,
}

/// Part index each engine occupies.
pub open spec fn mode_part(m: Mode) -> u8 {
    match m {
        Mode::Fm => 0,
        Mode::Harmonic => 1,
        Mode::Timbral => 2,
        Mode::Granular => 3,
    }
}

/// The engine in canonical position `i` (FM, Harmonic, Timbral,
/// Granular).
pub open spec fn engine_at(i: int) -> Mode {
    if i == 0 {
        Mode::Fm
    } else if i == 1 {
        Mode::Harmonic
    } else if i == 2 {
        Mode::Timbral
    } else {
        Mode::Granular
    }
}

impl Mode {
    /// Part index this engine occupies.
    pub fn part(self) -> (p: u8)
        ensures
            p == mode_part(self),
            p < 4,
    {
        match self {
            Mode::Fm => 0,
            Mode::Harmonic => 1,
            Mode::Timbral => 2,
            Mode::Granular => 3,
        }
    }

    /// Upper-case label shown on the menu bar.
    pub fn label(self) -> (s: &'static str)
        ensures
            s@ == (match self {
                Mode::Fm => "FM"@,
                Mode::Harmonic => "HARMONIC"@,
                Mode::Timbral => "TIMBRAL"@,
                Mode::Granular => "GRANULAR"@,
            }),
    {
        match self {
            Mode::Fm => "FM",
            Mode::Harmonic => "HARMONIC",
            Mode::Timbral => "TIMBRAL",
            Mode::Granular => "GRANULAR",
        }
    }

    /// The engine at canonical position `i`, if there is one.
    pub fn from_index(i: usize) -> (m: Option<Mode>)
        ensures
            m == (if i < 4 {
                Some(engine_at(i as int))
            } else {
                None::<Mode>
            }),
    {
        match i {
            0 => Some(Mode::Fm),
            1 => Some(Mode::Harmonic),
            2 => Some(Mode::Timbral),
            3 => Some(Mode::Granular),
            _ => None,
        }
    }
}

/// The library's name for an engine's patches.
pub open spec fn mode_name(m: Mode) -> Seq<char> {
    match m {
        Mode::Fm => "fm"@,
        Mode::Harmonic => "harmonic"@,
        Mode::Timbral => "timbral"@,
        Mode::Granular => "granular"@,
    }
}

impl Mode {
    /// The library's name for this engine's patches.
    pub fn name(self) -> (s: &'static str)
        ensures
            s@ == mode_name(self),
    {
        match self {
            Mode::Fm => "fm",
            Mode::Harmonic => "harmonic",
            Mode::Timbral => "timbral",
            Mode::Granular => "granular",
        }
    }

    /// The engine whose patches go by `name`, if any.
    pub fn from_name(name: &str) -> (m: Option<Mode>)
        ensures
            m matches Some(e) ==> mode_name(e) == name@,
            m is None ==> forall|e: Mode| mode_name(e) != name@,
    {
        proof {
            reveal_strlit("fm");
            reveal_strlit("harmonic");
            reveal_strlit("timbral");
            reveal_strlit("granular");
        }
        if str_eq(name, "fm") {
            Some(Mode::Fm)
        } else if str_eq(name, "harmonic") {
            Some(Mode::Harmonic)
        } else if str_eq(name, "timbral") {
            Some(Mode::Timbral)
        } else if str_eq(name, "granular") {
            Some(Mode::Granular)
        } else {
            proof {
                assert forall|e: Mode| mode_name(e) != name@ by {
                    match e {
                        Mode::Fm => {},
                        Mode::Harmonic => {},
                        Mode::Timbral => {},
                        Mode::Granular => {},
                    }
                }
            }
            None
        }
    }
}

/// The mode named by the first part that holds one.
pub open spec fn first_named(modes: Seq<Option<Seq<char>>>) -> Option<Seq<char>>
    decreases modes.len(),
{
    if modes.len() == 0 {
        None
    } else if modes[0] is Some {
        modes[0]
    } else {
        first_named(modes.drop_first())
    }
}

/// The engine page a loaded performance lands on: the engine named by
/// its first non-empty part, FM when there is none or the name is not
/// an engine's.
pub open spec fn landing_mode(modes: Seq<Option<Seq<char>>>) -> Mode {
    match first_named(modes) {
        Some(n) => if n == "harmonic"@ {
            Mode::Harmonic
        } else if n == "timbral"@ {
            Mode::Timbral
        } else if n == "granular"@ {
            Mode::Granular
        } else {
            Mode::Fm
        },
        None => Mode::Fm,
    }
}

/// The engine page to show after loading a performance whose parts
/// hold the modes `modes` (`None` for an empty part).
pub fn perf_landing_mode(modes: &Vec<Option<String>>) -> (m: Mode)
    ensures
        m == landing_mode(crate::patch_store::opt_views(modes@)),
{
    let ghost mv = crate::patch_store::opt_views(modes@);
    assert(mv.subrange(0, mv.len() as int) =~= mv);
    let mut i: usize = 0;
    while i < modes.len()
        invariant
            i <= modes.len(),
            mv == crate::patch_store::opt_views(modes@),
            forall|j: int| 0 <= j < i ==> modes@[j] is None,
            first_named(mv) == first_named(mv.subrange(i as int, mv.len() as int)),
        decreases modes.len() - i,
    {
        match &modes[i] {
            Some(name) => {
                proof {
                    assert(mv.subrange(i as int, mv.len() as int)[0] == Some(name@));
                    reveal_strlit("harmonic");
                    reveal_strlit("timbral");
                    reveal_strlit("granular");
                }
                let m = if str_eq(name.as_str(), "harmonic") {
                    Mode::Harmonic
                } else if str_eq(name.as_str(), "timbral") {
                    Mode::Timbral
                } else if str_eq(name.as_str(), "granular") {
                    Mode::Granular
                } else {
                    Mode::Fm
                };
                return m;
            },
            None => {
                proof {
                    assert(mv.subrange(i as int, mv.len() as int).drop_first() =~= mv.subrange(
                        i + 1,
                        mv.len() as int,
                    ));
                }
            },
        }
        i = i + 1;
    }
    proof {
        assert(mv.subrange(i as int, mv.len() as int).len() == 0);
    }
    Mode::Fm
}

/// Law: an engine's part index is its canonical position, so the two
/// orders never disagree.
pub proof fn lemma_part_is_position(i: int)
    requires
        0 <= i < 4,
    ensures
        mode_part(engine_at(i)) == i,
{
}

/// Top-level page on the menu bar.
#[derive(Debug, Clone, Copy, PartialEq, Eq, Structural)]
pub enum Page {
    Engine(Mode),
    Mod,
    Mix,
    Midi,
    Sys,
    Library,
    Script,
}

/// Steps `current` by `dir` through `0..len` with wrap-around.
pub fn cycle_index(current: usize, len: usize, dir: i32) -> (r: usize)
    requires
        len > 0,
        len <= i32::MAX,
        current + dir <= i32::MAX,
        current <= i32::MAX,
    ensures
        r as int == (current + dir) % (len as int),
        r < len,
{
    let l = len as i64;
    let s = current as i64 + dir as i64;
    if s >= 0 {
        (s % l) as usize
    } else {
        let a = -(s + 1);
        let m = a % l;
        let r = l - 1 - m;
        proof {
            let si = s as int;
            let li = l as int;
            let ai = a as int;
            let q = ai / li;
            assert(ai == q * li + (m as int)) by (nonlinear_arith)
                requires
                    li > 0,
                    q == ai / li,
                    m as int == ai % li,
            ;
            assert(0 <= m < l);
            assert(si == (-q - 1) * li + (r as int)) by (nonlinear_arith)
                requires
                    ai == -si - 1,
                    ai == q * li + (m as int),
                    r as int == li - 1 - (m as int),
            ;
            vstd::arithmetic::div_mod::lemma_fundamental_div_mod_converse(si, li, -q - 1, r as int);
        }
        r as usize
    }
}

/// Law: cycling forward by `dir` and back by `-dir` returns to where
/// navigation started.
pub proof fn lemma_cycle_undo(current: int, len: int, dir: int)
    requires
        len > 0,
        0 <= current < len,
    ensures
        (((current + dir) % len) - dir) % len == current,
{
    vstd::arithmetic::div_mod::lemma_fundamental_div_mod(current + dir, len);
    let q = (current + dir) / len;
    let r = (current + dir) % len;
    assert(current + dir == len * q + r);
    assert(r - dir == (-q) * len + current) by (nonlinear_arith)
        requires
            current + dir == len * q + r,
    ;
    vstd::arithmetic::div_mod::lemma_fundamental_div_mod_converse(r - dir, len, -q, current);
}

} // verus!

verus! {

/// Number of FX tabs on the MIX page (SAT, DELAY, CHORUS, REVERB).
pub const FX_TAB_COUNT: usize = 4;

/// Index of the LUA tab appended after the FX tabs on the MIX page.
pub const LUA_FX_TAB_INDEX: usize = 4;

/// Which page is showing and which sub-tab each engine page and the
/// MIX page's FX strip have selected.
pub struct Navigation {
    page: Page,
    active_sub_tab: Vec<usize>,
    active_fx_tab: usize,
    tab_counts: Vec<usize>,
}

impl Navigation {
    /// The page showing.
    pub closed spec fn page_view(&self) -> Page {
        self.page
    }

    /// The stored sub-tab selection of each part's engine page.
    pub closed spec fn sub_tabs(&self) -> Seq<usize> {
        self.active_sub_tab@
    }

    /// The selected FX tab on the MIX page.
    pub closed spec fn fx_tab(&self) -> usize {
        self.active_fx_tab
    }

    /// Number of sub-tabs of each part's engine page.
    pub closed spec fn counts(&self) -> Seq<usize> {
        self.tab_counts@
    }

    /// Well-formedness: four parts, selections inside their ranges.
    pub closed spec fn wf(&self) -> bool {
        &&& self.active_sub_tab.len() == 4
        &&& self.tab_counts.len() == 4
        &&& forall|p: int| 0 <= p < 4 ==> #[trigger] self.tab_counts@[p] <= i32::MAX
        &&& forall|p: int|
            0 <= p < 4 ==> (#[trigger] self.active_sub_tab@[p] == 0 || self.active_sub_tab@[p]
                < self.tab_counts@[p])
        &&& self.active_fx_tab <= LUA_FX_TAB_INDEX
    }

    /// Starts on the FM page with every selection at its first tab;
    /// `tab_counts[p]` is the number of sub-tabs of part `p`'s engine.
    pub fn new(tab_counts: [usize; 4]) -> (n: Self)
        requires
            forall|p: int| 0 <= p < 4 ==> #[trigger] tab_counts@[p] <= i32::MAX,
        ensures
            n.wf(),
            n.page_view() == Page::Engine(Mode::Fm),
            n.sub_tabs() == seq![0usize, 0, 0, 0],
            n.fx_tab() == 0,
            n.counts() == tab_counts@,
    {
        let mut counts: Vec<usize> = Vec::new();
        counts.push(tab_counts[0]);
        counts.push(tab_counts[1]);
        counts.push(tab_counts[2]);
        counts.push(tab_counts[3]);
        assert(counts@ =~= tab_counts@);
        let subs: Vec<usize> = vec![0, 0, 0, 0];
        assert(subs@ =~= seq![0usize, 0, 0, 0]);
        Navigation { page: Page::Engine(Mode::Fm), active_sub_tab: subs, active_fx_tab: 0, tab_counts: counts }
    }

    /// The page showing.
    pub fn page(&self) -> (p: Page)
        ensures
            p == self.page_view(),
    {
        self.page
    }

    /// Shows `page`.
    pub fn set_page(&mut self, page: Page)
        requires
            old(self).wf(),
        ensures
            final(self).wf(),
            final(self).page_view() == page,
            final(self).sub_tabs() == old(self).sub_tabs(),
            final(self).fx_tab() == old(self).fx_tab(),
            final(self).counts() == old(self).counts(),
    {
        self.page = page;
    }

    /// The selected FX tab.
    pub fn active_fx_tab(&self) -> (t: usize)
        ensures
            t == self.fx_tab(),
    {
        self.active_fx_tab
    }

    /// Part addressed by the page showing: the engine's part on an
    /// engine page, part 0 elsewhere.
    pub fn active_part(&self) -> (p: u8)
        ensures
            p == (match self.page_view() {
                Page::Engine(m) => mode_part(m),
                _ => 0u8,
            }),
    {
        match self.page {
            Page::Engine(m) => m.part(),
            _ => 0,
        }
    }

    /// Sub-tab of `mode`'s page, clamped into its tab list.
    pub fn active_sub_tab_for(&self, mode: Mode) -> (t: usize)
        requires
            self.wf(),
        ensures
            t == (if self.sub_tabs()[mode_part(mode) as int] as int <= self.counts()[mode_part(mode) as int] - 1
                || self.counts()[mode_part(mode) as int] == 0 {
                if self.counts()[mode_part(mode) as int] == 0 {
                    0
                } else {
                    self.sub_tabs()[mode_part(mode) as int]
                }
            } else {
                (self.counts()[mode_part(mode) as int] - 1) as usize
            }),
    {
        let p = mode.part() as usize;
        let raw = self.active_sub_tab[p];
        let len = self.tab_counts[p];
        let top = if len == 0 {
            0
        } else {
            len - 1
        };
        if raw < top {
            raw
        } else {
            top
        }
    }

    /// Moves the visible engine page by `dir`, wrapping; from a utility
    /// page the move starts at FM.
    pub fn cycle_engine(&mut self, dir: i32)
        requires
            old(self).wf(),
            dir <= i32::MAX - 3,
        ensures
            final(self).wf(),
            final(self).page_view() == Page::Engine(engine_at(
                ((match old(self).page_view() {
                    Page::Engine(m) => mode_part(m) as int,
                    _ => 0,
                }) + dir) % 4,
            )),
            final(self).sub_tabs() == old(self).sub_tabs(),
            final(self).fx_tab() == old(self).fx_tab(),
            final(self).counts() == old(self).counts(),
    {
        let cur = match self.page {
            Page::Engine(m) => m,
            _ => Mode::Fm,
        };
        let idx = cur.part() as usize;
        let n = cycle_index(idx, 4, dir);
        match Mode::from_index(n) {
            Some(m) => {
                self.page = Page::Engine(m);
            },
            None => {},
        }
    }

    /// Shows engine `index` directly; out-of-range indices do nothing.
    pub fn select_engine(&mut self, index: u8)
        requires
            old(self).wf(),
        ensures
            final(self).wf(),
            final(self).page_view() == (if index < 4 {
                Page::Engine(engine_at(index as int))
            } else {
                old(self).page_view()
            }),
            final(self).sub_tabs() == old(self).sub_tabs(),
            final(self).fx_tab() == old(self).fx_tab(),
            final(self).counts() == old(self).counts(),
    {
        if let Some(m) = Mode::from_index(index as usize) {
            self.page = Page::Engine(m);
        }
    }

    /// Shows FX tab `idx` on the MIX page: one of the FX tabs or the
    /// LUA tab; other indices do nothing.
    pub fn switch_fx_tab(&mut self, idx: usize)
        requires
            old(self).wf(),
        ensures
            final(self).wf(),
            final(self).fx_tab() == (if idx < FX_TAB_COUNT || idx == LUA_FX_TAB_INDEX {
                idx
            } else {
                old(self).fx_tab()
            }),
            final(self).page_view() == old(self).page_view(),
            final(self).sub_tabs() == old(self).sub_tabs(),
            final(self).counts() == old(self).counts(),
    {
        if idx < FX_TAB_COUNT || idx == LUA_FX_TAB_INDEX {
            self.active_fx_tab = idx;
        }
    }

    /// Moves the MIX page's FX tab by `dir`, wrapping.
    pub fn cycle_fx_tab(&mut self, dir: i32)
        requires
            old(self).wf(),
            dir <= i32::MAX - 4,
        ensures
            final(self).wf(),
            final(self).fx_tab() as int == (old(self).fx_tab() + dir) % (FX_TAB_COUNT as int),
            final(self).page_view() == old(self).page_view(),
            final(self).sub_tabs() == old(self).sub_tabs(),
            final(self).counts() == old(self).counts(),
    {
        self.active_fx_tab = cycle_index(self.active_fx_tab, FX_TAB_COUNT, dir);
    }

    /// Moves the sub-tab selection by `dir`, wrapping: the engine's
    /// sub-tabs on an engine page (nothing when it has none), the FX
    /// tabs on MIX, nothing elsewhere.
    pub fn cycle_sub_tab(&mut self, dir: i32)
        requires
            old(self).wf(),
            old(self).page_view() == Page::Mix ==> dir <= i32::MAX - 4,
            match old(self).page_view() {
                Page::Engine(m) => old(self).counts()[mode_part(m) as int] == 0 || old(self).sub_tabs()[mode_part(
                    m,
                ) as int] + dir <= i32::MAX,
                _ => true,
            },
        ensures
            final(self).wf(),
            final(self).page_view() == old(self).page_view(),
            final(self).counts() == old(self).counts(),
            match old(self).page_view() {
                Page::Engine(m) => {
                    let p = mode_part(m) as int;
                    &&& final(self).fx_tab() == old(self).fx_tab()
                    &&& final(self).sub_tabs() == (if old(self).counts()[p] == 0 {
                        old(self).sub_tabs()
                    } else {
                        old(self).sub_tabs().update(
                            p,
                            ((old(self).sub_tabs()[p] + dir) % (old(self).counts()[p] as int)) as usize,
                        )
                    })
                },
                Page::Mix => {
                    &&& final(self).sub_tabs() == old(self).sub_tabs()
                    &&& final(self).fx_tab() as int == (old(self).fx_tab() + dir) % (FX_TAB_COUNT as int)
                },
                _ => final(self).sub_tabs() == old(self).sub_tabs() && final(self).fx_tab() == old(
                    self,
                ).fx_tab(),
            },
    {
        match self.page {
            Page::Engine(m) => {
                let p = m.part() as usize;
                let len = self.tab_counts[p];
                if len == 0 {
                    return;
                }
                let cur = self.active_sub_tab[p];
                assert(old(self).sub_tabs()[p as int] + dir <= i32::MAX);
                let n = cycle_index(cur, len, dir);
                self.active_sub_tab.set(p, n);
            },
            Page::Mix => self.cycle_fx_tab(dir),
            _ => {},
        }
    }

    /// Selects sub-tab `index` directly: of the engine on an engine
    /// page, of the FX strip on MIX. Out-of-range indices do nothing.
    pub fn select_sub_tab(&mut self, index: u8)
        requires
            old(self).wf(),
        ensures
            final(self).wf(),
            final(self).page_view() == old(self).page_view(),
            final(self).counts() == old(self).counts(),
            match old(self).page_view() {
                Page::Engine(m) => {
                    let p = mode_part(m) as int;
                    &&& final(self).fx_tab() == old(self).fx_tab()
                    &&& final(self).sub_tabs() == (if (index as int) < old(self).counts()[p] {
                        old(self).sub_tabs().update(p, index as usize)
                    } else {
                        old(self).sub_tabs()
                    })
                },
                Page::Mix => {
                    &&& final(self).sub_tabs() == old(self).sub_tabs()
                    &&& final(self).fx_tab() == (if (index as int) < FX_TAB_COUNT {
                        index as usize
                    } else {
                        old(self).fx_tab()
                    })
                },
                _ => final(self).sub_tabs() == old(self).sub_tabs() && final(self).fx_tab() == old(
                    self,
                ).fx_tab(),
            },
    {
        let idx = index as usize;
        match self.page {
            Page::Engine(m) => {
                let p = m.part() as usize;
                if idx >= self.tab_counts[p] {
                    return;
                }
                self.active_sub_tab.set(p, idx);
            },
            Page::Mix => {
                if idx < FX_TAB_COUNT {
                    self.active_fx_tab = idx;
                }
            },
            _ => {},
        }
    }
}

} // verus!

verus! {

// ─── On-screen keyboard ─────────────────────────────────────────────

/// MIDI note of key `key` on the strip at `octave`:
/// `(octave + 1) * 12 + key`, clamped into 0..=127.
pub open spec fn key_note(octave: i8, key: u8) -> int {
    let n = (octave + 1) * 12 + key;
    if n < 0 {
        0
    } else if n > 127 {
        127
    } else {
        n
    }
}

/// The MIDI note a key of the strip plays at `octave`.
pub fn key_to_midi(octave: i8, key: u8) -> (n: u8)
    ensures
        n == key_note(octave, key),
{
    let n = (octave as i32 + 1) * 12 + key as i32;
    if n < 0 {
        0
    } else if n > 127 {
        127
    } else {
        n as u8
    }
}

/// The octave one step down or up (`up`), kept within -1..=9.
pub open spec fn octave_after(octave: i8, up: bool) -> i8 {
    let v = if up {
        octave + 1
    } else {
        octave - 1
    };
    (if v < -1 {
        -1
    } else if v > 9 {
        9
    } else {
        v
    }) as i8
}

/// The octave one step down or up (`up`), kept within -1..=9.
pub fn shift_octave(octave: i8, up: bool) -> (o: i8)
    ensures
        o == octave_after(octave, up),
        -1 <= o <= 9,
{
    let v = if up {
        octave as i16 + 1
    } else {
        octave as i16 - 1
    };
    if v < -1 {
        -1
    } else if v > 9 {
        9
    } else {
        v as i8
    }
}

/// The notes a key press sounds on `root`: the root alone, or with
/// CHORD on the major triad root, +4, +7 semitones, each capped at 127.
pub open spec fn voicing(chord: bool, root: u8) -> Seq<u8> {
    if chord {
        seq![
            root,
            (if root + 4 > 127 { 127 } else { root + 4 }) as u8,
            (if root + 7 > 127 { 127 } else { root + 7 }) as u8,
        ]
    } else {
        seq![root]
    }
}

/// Notes a key press produces on `root` (see `voicing`).
pub fn chord_voicing(chord: bool, root: u8) -> (v: Vec<u8>)
    ensures
        v@ == voicing(chord, root),
{
    if chord {
        let third = if root > 123 {
            127
        } else {
            root + 4
        };
        let fifth = if root > 120 {
            127
        } else {
            root + 7
        };
        let v = vec![root, third, fifth];
        assert(v@ =~= seq![
            root,
            (if root + 4 > 127 { 127 } else { root + 4 }) as u8,
            (if root + 7 > 127 { 127 } else { root + 7 }) as u8,
        ]);
        v
    } else {
        let v = vec![root];
        assert(v@ =~= seq![root]);
        v
    }
}

/// Law: every note the keyboard sends is a valid MIDI note, and the
/// chord built on it stays in the MIDI range, its notes never falling
/// below the root.
pub proof fn lemma_keyboard_notes_valid(octave: i8, key: u8)
    ensures
        0 <= key_note(octave, key) <= 127,
        ({
            let root = key_note(octave, key);
            &&& (if root + 4 > 127 { 127 } else { root + 4 }) <= 127
            &&& (if root + 7 > 127 { 127 } else { root + 7 }) <= 127
            &&& root <= (if root + 4 > 127 { 127 } else { root + 4 })
                <= (if root + 7 > 127 { 127 } else { root + 7 })
        }),
{
}

// ─── Clock source ───────────────────────────────────────────────────

/// The clock sources, by index: display label and the word sent to the
/// engine.
pub open spec fn clock_source(idx: int) -> Option<(Seq<char>, Seq<char>)> {
    if idx == 0 {
        Some(("Off"@, "off"@))
    } else if idx == 1 {
        Some(("Master"@, "master"@))
    } else if idx == 2 {
        Some(("Sync"@, "external"@))
    } else {
        None
    }
}

/// Label of clock source `idx` for display; an unknown index (say, from
/// an old settings file) shows as `Off`.
pub fn clock_source_label(idx: usize) -> (s: &'static str)
    ensures
        s@ == (match clock_source(idx as int) {
            Some((label, _)) => label,
            None => "Off"@,
        }),
{
    if idx == 0 {
        "Off"
    } else if idx == 1 {
        "Master"
    } else if idx == 2 {
        "Sync"
    } else {
        "Off"
    }
}

/// The word sent to the engine for clock source `idx`; `None` refuses
/// an unknown index.
pub fn clock_source_wire(idx: usize) -> (s: Option<&'static str>)
    ensures
        match clock_source(idx as int) {
            Some((_, wire)) => s matches Some(w) && w@ == wire,
            None => s is None,
        },
{
    if idx == 0 {
        Some("off")
    } else if idx == 1 {
        Some("master")
    } else if idx == 2 {
        Some("external")
    } else {
        None
    }
}

// ─── Splash timeline ────────────────────────────────────────────────

/// Milliseconds until the splash's wordmark appears.
pub const SPLASH_WORDMARK_REVEAL_MS: u64 = 900;
/// Milliseconds until the splash starts fading.
pub const SPLASH_FADE_START_MS: u64 = 4_000;
/// Length of the splash's fade, in milliseconds.
pub const SPLASH_FADE_DURATION_MS: u64 = 1_500;

/// Whether the wordmark shows `elapsed_ms` after the splash started.
pub fn wordmark_visible_at(elapsed_ms: u128) -> (b: bool)
    ensures
        b == (elapsed_ms >= SPLASH_WORDMARK_REVEAL_MS),
{
    elapsed_ms >= SPLASH_WORDMARK_REVEAL_MS as u128
}

/// Whether the splash is gone `elapsed_ms` after it started: once the
/// fade has run its full length.
pub fn dismissed_at(elapsed_ms: u128) -> (b: bool)
    ensures
        b == (elapsed_ms >= SPLASH_FADE_START_MS + SPLASH_FADE_DURATION_MS),
{
    elapsed_ms >= (SPLASH_FADE_START_MS + SPLASH_FADE_DURATION_MS) as u128
}

/// Law: the wordmark is always showing by the time the splash goes.
pub proof fn lemma_wordmark_before_dismissal(elapsed_ms: u128)
    ensures
        elapsed_ms >= SPLASH_FADE_START_MS + SPLASH_FADE_DURATION_MS ==> elapsed_ms
            >= SPLASH_WORDMARK_REVEAL_MS,
{
}

#[verifier::external_type_specification]
#[verifier::external_body]
pub struct ExInstant(std::time::Instant);

/// The current instant of the monotonic clock.
///
/// Wraps std's `Instant::now`; the value depends on the clock, so
/// nothing is stated about it.
#[verifier::external_body]
fn instant_now() -> std::time::Instant {
    std::time::Instant::now()
}

/// Time passed since `start` on the monotonic clock.
///
/// Wraps std's `Instant::elapsed`, which saturates at zero; the value
/// depends on the clock, so nothing is stated about it.
#[verifier::external_body]
fn instant_elapsed(start: &std::time::Instant) -> std::time::Duration {
    start.elapsed()
}

/// The whole milliseconds of `d`.
///
/// Wraps std's `Duration::as_millis`. A `Duration` is opaque here, so
/// nothing is stated about the number.
#[verifier::external_body]
fn duration_millis(d: &std::time::Duration) -> u128 {
    d.as_millis()
}

/// Milliseconds since `start` on the monotonic clock.
fn elapsed_millis(start: &std::time::Instant) -> u128 {
    let d = instant_elapsed(start);
    duration_millis(&d)
}

/// The splash screen's start time.
pub struct SplashState {
    started_at: std::time::Instant,
}

impl SplashState {
    /// A splash starting now.
    pub fn new() -> Self {
        SplashState { started_at: instant_now() }
    }

    /// Whether the wordmark has been revealed: `wordmark_visible_at`
    /// applied to the time elapsed on the monotonic clock.
    pub fn wordmark_visible(&self) -> bool {
        wordmark_visible_at(elapsed_millis(&self.started_at))
    }

    /// Whether the splash has faded out completely: `dismissed_at`
    /// applied to the time elapsed on the monotonic clock.
    pub fn dismissed(&self) -> bool {
        dismissed_at(elapsed_millis(&self.started_at))
    }

    /// Milliseconds since the splash started.
    pub fn elapsed_ms(&self) -> u128 {
        elapsed_millis(&self.started_at)
    }
}

} // verus!

verus! {

// ─── Text shown on the SYS and MIDI pages ───────────────────────────

/// Short display name of an audio output device id.
pub open spec fn device_short(id: Seq<char>) -> Seq<char> {
    if id.len() == 0 {
        "—"@
    } else if contains_seq(id, "UAC2Gadget"@) {
        "MERIDIAN"@
    } else if contains_seq(id, "vc4hdmi0"@) || contains_seq(id, "vc4-hdmi-0"@) {
        "HDMI 0"@
    } else if contains_seq(id, "vc4hdmi1"@) || contains_seq(id, "vc4-hdmi-1"@) {
        "HDMI 1"@
    } else {
        id
    }
}

/// Short display name of an audio output device id: a dash for none,
/// friendly names for the USB gadget and the two HDMI outputs, the id
/// itself otherwise.
pub fn audio_device_short(id: &str) -> (s: String)
    ensures
        s@ == device_short(id@),
{
    if id.is_empty() {
        owned("—")
    } else if str_contains(id, "UAC2Gadget") {
        owned("MERIDIAN")
    } else if str_contains(id, "vc4hdmi0") || str_contains(id, "vc4-hdmi-0") {
        owned("HDMI 0")
    } else if str_contains(id, "vc4hdmi1") || str_contains(id, "vc4-hdmi-1") {
        owned("HDMI 1")
    } else {
        owned(id)
    }
}

/// A telemetry value, or `--` when it is empty.
pub fn or_dash(s: &str) -> (r: String)
    ensures
        r@ == (if s@.len() == 0 {
            "--"@
        } else {
            s@
        }),
{
    if s.is_empty() {
        owned("--")
    } else {
        owned(s)
    }
}

/// The value of a string of decimal digits.
pub open spec fn digits_value(s: Seq<char>) -> nat
    decreases s.len(),
{
    if s.len() == 0 {
        0
    } else {
        digits_value(s.drop_last()) * 10 + ((s.last() as int) - 48) as nat
    }
}

/// Every character is an ASCII decimal digit.
pub open spec fn all_digits(s: Seq<char>) -> bool {
    forall|i: int| 0 <= i < s.len() ==> '0' <= #[trigger] s[i] && s[i] <= '9'
}

/// What `str::parse::<u8>` yields: an optional `+` followed by one or
/// more decimal digits whose value fits in a byte.
pub open spec fn parse_u8_spec(s: Seq<char>) -> Option<u8> {
    let d = if s.len() > 0 && s[0] == '+' {
        s.drop_first()
    } else {
        s
    };
    if d.len() > 0 && all_digits(d) && digits_value(d) <= 255 {
        Some(digits_value(d) as u8)
    } else {
        None
    }
}

proof fn lemma_digits_value_grows(s: Seq<char>, k: int)
    requires
        all_digits(s),
        0 <= k <= s.len(),
    ensures
        digits_value(s) >= digits_value(s.take(k)),
    decreases s.len() - k,
{
    if k < s.len() {
        lemma_digits_value_grows(s, k + 1);
        let t = s.take(k + 1);
        assert(t.drop_last() =~= s.take(k));
        assert(t.last() == s[k]);
        assert('0' <= s[k]);
        assert(digits_value(t) == digits_value(s.take(k)) * 10 + ((s[k] as int) - 48) as nat);
    } else {
        assert(s.take(k) =~= s);
    }
}

/// Parses a byte the way `str::parse::<u8>` does.
pub fn parse_u8(s: &Vec<char>) -> (r: Option<u8>)
    ensures
        r == parse_u8_spec(s@),
{
    let mut i: usize = 0;
    if s.len() > 0 && s[0] == '+' {
        i = 1;
    }
    let ghost d = if s@.len() > 0 && s@[0] == '+' {
        s@.drop_first()
    } else {
        s@
    };
    assert(d =~= s@.skip(i as int));
    if i == s.len() {
        return None;
    }
    let start = i;
    let mut acc: u32 = 0;
    while i < s.len()
        invariant
            start <= i <= s.len(),
            start < s.len(),
            d == s@.skip(start as int),
            d == (if s@.len() > 0 && s@[0] == '+' {
                s@.drop_first()
            } else {
                s@
            }),
            all_digits(d.take(i - start)),
            acc == digits_value(d.take(i - start)),
            acc <= 255,
        decreases s.len() - i,
    {
        let c = s[i];
        if c < '0' || c > '9' {
            proof {
                assert(d[i - start] == c);
                assert(!('0' <= d[i - start] && d[i - start] <= '9'));
                assert(!all_digits(d));
            }
            return None;
        }
        let v = (c as u32) - 48;
        proof {
            assert(d.take(i - start + 1).drop_last() =~= d.take(i - start));
            assert(d.take(i - start + 1).last() == c);
            assert forall|j: int| 0 <= j < d.take(i - start + 1).len() implies '0' <= #[trigger] d.take(
                i - start + 1,
            )[j] && d.take(i - start + 1)[j] <= '9' by {
                if j < i - start {
                    assert(d.take(i - start)[j] == d.take(i - start + 1)[j]);
                }
            }
        }
        acc = acc * 10 + v;
        i = i + 1;
        if acc > 255 {
            proof {
                if all_digits(d) {
                    lemma_digits_value_grows(d, i - start);
                }
            }
            return None;
        }
    }
    assert(d.take(i - start) =~= d);
    Some(acc as u8)
}

/// The 0-indexed MIDI channel a channel-picker label names: `CH 1`
/// through `CH 16` give 0 through 15; anything else (`NONE`) gives
/// none.
pub open spec fn channel_option(label: Seq<char>) -> Option<u8> {
    if is_prefix("CH "@, label) {
        match parse_u8_spec(label.skip(3)) {
            Some(n) if 1 <= n <= 16 => Some((n - 1) as u8),
            _ => None,
        }
    } else {
        None
    }
}

/// Converts a channel-picker label back to its 0-indexed channel.
pub fn parse_channel_option(label: &str) -> (r: Option<u8>)
    ensures
        r == channel_option(label@),
{
    if !str_starts_with(label, "CH ") {
        return None;
    }
    proof {
        reveal_strlit("CH ");
    }
    let v = chars_of(label);
    let mut rest: Vec<char> = Vec::new();
    let mut i: usize = 3;
    while i < v.len()
        invariant
            3 <= i <= v.len(),
            rest@ == v@.subrange(3, i as int),
        decreases v.len() - i,
    {
        rest.push(v[i]);
        assert(v@.subrange(3, i + 1) =~= v@.subrange(3, i as int).push(v@[i as int]));
        i = i + 1;
    }
    assert(rest@ =~= label@.skip(3));
    match parse_u8(&rest) {
        Some(n) => {
            if 1 <= n && n <= 16 {
                Some(n - 1)
            } else {
                None
            }
        },
        None => None,
    }
}

/// The picker label of 0-indexed channel `c`: `CH ` and `c + 1`.
pub open spec fn channel_label(c: nat) -> Seq<char> {
    "CH "@ + crate::time_fmt::decimal(c + 1)
}

/// Law: parsing a channel label gives back its channel, for every
/// channel 0..=15.
pub proof fn lemma_channel_label_roundtrip(c: nat)
    requires
        c < 16,
    ensures
        channel_option(channel_label(c)) == Some(c as u8),
{
    reveal_strlit("CH ");
    let l = channel_label(c);
    let d = crate::time_fmt::decimal(c + 1);
    assert(l.subrange(0, 3) =~= "CH "@);
    assert(l.skip(3) =~= d);
    lemma_decimal_digits(c + 1);
    assert(d.len() > 0);
    assert(d[0] != '+') by {
        assert('0' <= d[0]);
    }
}

/// The decimal representation is digits whose value is the number.
proof fn lemma_decimal_digits(n: nat)
    ensures
        all_digits(crate::time_fmt::decimal(n)),
        digits_value(crate::time_fmt::decimal(n)) == n,
        crate::time_fmt::decimal(n).len() > 0,
    decreases n,
{
    let d = crate::time_fmt::decimal(n);
    let last = n % 10;
    assert((crate::time_fmt::digit_char(last as int) as int) == 48 + last);
    assert(d.last() == crate::time_fmt::digit_char(last as int));
    if n < 10 {
        assert(d.drop_last() =~= Seq::<char>::empty());
        assert(digits_value(d) == digits_value(d.drop_last()) * 10 + ((d.last() as int) - 48) as nat);
    }
    if n >= 10 {
        lemma_decimal_digits(n / 10);
        assert(d.drop_last() =~= crate::time_fmt::decimal(n / 10));
        assert(digits_value(d) == digits_value(d.drop_last()) * 10 + ((d.last() as int) - 48) as nat);
        assert forall|i: int| 0 <= i < d.len() implies '0' <= #[trigger] d[i] && d[i] <= '9' by {
            if i < d.len() - 1 {
                assert(d[i] == crate::time_fmt::decimal(n / 10)[i]);
            }
        }
    }
}

} // verus!
