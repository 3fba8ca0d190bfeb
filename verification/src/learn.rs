//! The MIDI Learn flow on the CC MAPPING panel: arm, capture the first
//! CC that arrives, pick a destination, save the binding.

use vstd::prelude::*;
use crate::text::{chars_of, string_from_chars};

verus! {

/// Where the Learn flow stands.
#[derive(Debug, Clone, Copy, PartialEq, Eq, Structural)]
pub enum LearnPhase {
    /// Not listening.
    Idle,
    /// Armed: waiting for the first CC from the MIDI input.
    Listening,
    /// A CC arrived on `channel` with number `cc` and value `value`.
    Detected { channel: u8, cc: u8, value: u8 },
}

/// The Learn flow's state: its phase and the chosen destination.
pub struct LearnFlow {
    phase: LearnPhase,
    selected_dest: Option<String>,
}

impl LearnFlow {
    /// The current phase.
    pub closed spec fn phase_view(&self) -> LearnPhase {
        self.phase
    }

    /// The chosen destination, if any.
    pub closed spec fn dest_view(&self) -> Option<Seq<char>> {
        match self.selected_dest {
            Some(d) => Some(d@),
            None => None,
        }
    }

    /// Idle, nothing chosen.
    pub fn new() -> (l: Self)
        ensures
            l.phase_view() == LearnPhase::Idle,
            l.dest_view() is None,
    {
        LearnFlow { phase: LearnPhase::Idle, selected_dest: None }
    }

    /// The current phase.
    pub fn phase(&self) -> (p: LearnPhase)
        ensures
            p == self.phase_view(),
    {
        self.phase
    }

    /// The LEARN button: arms when idle, disarms otherwise. Returns
    /// whether capture should now be armed on the MIDI input. Either
    /// way the chosen destination is cleared.
    pub fn toggle(&mut self) -> (armed: bool)
        ensures
            armed == (old(self).phase_view() == LearnPhase::Idle),
            final(self).phase_view() == (if armed {
                LearnPhase::Listening
            } else {
                LearnPhase::Idle
            }),
            final(self).dest_view() is None,
    {
        self.selected_dest = None;
        match self.phase {
            LearnPhase::Idle => {
                self.phase = LearnPhase::Listening;
                true
            },
            _ => {
                self.phase = LearnPhase::Idle;
                false
            },
        }
    }

    /// Cancels the flow: back to idle, nothing chosen, capture disarmed.
    pub fn cancel(&mut self)
        ensures
            final(self).phase_view() == LearnPhase::Idle,
            final(self).dest_view() is None,
    {
        self.phase = LearnPhase::Idle;
        self.selected_dest = None;
    }

    /// A captured CC arrived. While listening it is recorded and the
    /// destination choice is reset; the CC tab to show is returned when
    /// the channel is one of the four parts' (0..=3). A capture that
    /// arrives when not listening (a late event after a cancel) is
    /// ignored.
    pub fn capture(&mut self, channel: u8, cc: u8, value: u8) -> (tab: Option<usize>)
        ensures
            old(self).phase_view() == LearnPhase::Listening ==> final(self).phase_view()
                == (LearnPhase::Detected { channel, cc, value }) && final(self).dest_view() is None
                && tab == (if channel <= 3 {
                Some(channel as usize)
            } else {
                None::<usize>
            }),
            old(self).phase_view() != LearnPhase::Listening ==> final(self).phase_view() == old(
                self,
            ).phase_view() && final(self).dest_view() == old(self).dest_view() && tab is None,
    {
        if self.phase == LearnPhase::Listening {
            self.phase = LearnPhase::Detected { channel, cc, value };
            self.selected_dest = None;
            if channel <= 3 {
                Some(channel as usize)
            } else {
                None
            }
        } else {
            None
        }
    }

    /// Chooses the destination of the binding being learned.
    pub fn select_dest(&mut self, dest: String)
        ensures
            final(self).phase_view() == old(self).phase_view(),
            final(self).dest_view() == Some(dest@),
    {
        self.selected_dest = Some(dest);
    }

    /// SAVE: once a CC has been detected and a destination chosen,
    /// returns the binding to store (the detected CC number and the
    /// destination) and returns to idle. Otherwise nothing is saved and
    /// the phase stays; the destination choice is consumed either way
    /// once a CC was detected.
    pub fn save(&mut self) -> (binding: Option<(u8, String)>)
        ensures
            match old(self).phase_view() {
                LearnPhase::Detected { cc, .. } => match old(self).dest_view() {
                    Some(d) => (binding matches Some((c, s)) && c == cc && s@ == d)
                        && final(self).phase_view() == LearnPhase::Idle && final(self).dest_view() is None,
                    None => binding is None && final(self).phase_view() == old(self).phase_view()
                        && final(self).dest_view() is None,
                },
                _ => binding is None && final(self).phase_view() == old(self).phase_view()
                    && final(self).dest_view() == old(self).dest_view(),
            },
    {
        let cc = match self.phase {
            LearnPhase::Detected { cc, .. } => cc,
            _ => {
                return None;
            },
        };
        let dest = match self.selected_dest.take() {
            Some(d) => d,
            None => {
                return None;
            },
        };
        self.phase = LearnPhase::Idle;
        Some((cc, dest))
    }
}

/// What a learned destination names: an FX parameter written
/// `slot:param`, or an engine parameter by name.
#[derive(Debug, PartialEq, Eq)]
pub enum LearnTarget {
    /// FX slot and parameter, split at the first `:`.
    Fx(String, String),
    /// An engine parameter name (no `:`).
    Engine(String),
}

/// Splits a destination at its first `:` into an FX slot and parameter;
/// a destination without `:` names an engine parameter.
pub fn learn_target(dest: &str) -> (t: LearnTarget)
    ensures
        match t {
            LearnTarget::Fx(slot, param) => dest@.contains(':') && !slot@.contains(':') && dest@ == slot@
                + seq![':'] + param@,
            LearnTarget::Engine(name) => !dest@.contains(':') && name@ == dest@,
        },
{
    let v = chars_of(dest);
    let mut i: usize = 0;
    while i < v.len()
        invariant
            i <= v.len(),
            v@ == dest@,
            forall|j: int| 0 <= j < i ==> v@[j] != ':',
        decreases v.len() - i,
    {
        if v[i] == ':' {
            let mut slot: Vec<char> = Vec::new();
            let mut k: usize = 0;
            while k < i
                invariant
                    k <= i,
                    i < v.len(),
                    slot@ == v@.subrange(0, k as int),
                decreases i - k,
            {
                slot.push(v[k]);
                assert(v@.subrange(0, k + 1) =~= v@.subrange(0, k as int).push(v@[k as int]));
                k = k + 1;
            }
            let mut param: Vec<char> = Vec::new();
            let mut m: usize = i + 1;
            while m < v.len()
                invariant
                    i < m <= v.len(),
                    param@ == v@.subrange(i + 1, m as int),
                decreases v.len() - m,
            {
                param.push(v[m]);
                assert(v@.subrange(i + 1, m + 1) =~= v@.subrange(i + 1, m as int).push(v@[m as int]));
                m = m + 1;
            }
            proof {
                assert(v@ =~= slot@ + seq![':'] + param@);
                assert(v@[i as int] == ':');
                if slot@.contains(':') {
                    let j = choose|j: int| 0 <= j < slot@.len() && slot@[j] == ':';
                    assert(v@[j] == ':');
                }
            }
            return LearnTarget::Fx(string_from_chars(&slot), string_from_chars(&param));
        }
        i = i + 1;
    }
    proof {
        if dest@.contains(':') {
            let j = choose|j: int| 0 <= j < dest@.len() && dest@[j] == ':';
            assert(v@[j] == ':');
        }
    }
    LearnTarget::Engine(string_from_chars(&v))
}

/// How long an armed RESET waits for its confirming second tap, in
/// milliseconds.
pub const RESET_DISARM_MS: u64 = 3_000;

/// The two-tap RESET button: the first tap arms it, a second tap while
/// armed fires it; an arm not confirmed in time lapses.
pub struct ResetArm {
    armed_at: Option<u64>,
}

/// A tap at `now` on a button armed since `armed_at` (if armed): fires
/// and disarms when armed, arms at `now` otherwise.
pub open spec fn reset_tap(armed_at: Option<u64>, now: u64) -> (Option<u64>, bool) {
    match armed_at {
        Some(_) => (None, true),
        None => (Some(now), false),
    }
}

/// A clock tick at `now`: an arm at least `RESET_DISARM_MS` old lapses.
pub open spec fn reset_tick(armed_at: Option<u64>, now: u64) -> Option<u64> {
    match armed_at {
        Some(t) => if now >= t && now - t >= RESET_DISARM_MS {
            None
        } else {
            armed_at
        },
        None => None,
    }
}

impl ResetArm {
    /// When the button was armed, if it is.
    pub closed spec fn armed_view(&self) -> Option<u64> {
        self.armed_at
    }

    /// Not armed.
    pub fn new() -> (r: Self)
        ensures
            r.armed_view() is None,
    {
        ResetArm { armed_at: None }
    }

    /// Whether the button is armed.
    pub fn is_armed(&self) -> (b: bool)
        ensures
            b == self.armed_view() is Some,
    {
        self.armed_at.is_some()
    }

    /// A tap at `now_ms`; returns whether the reset fires.
    pub fn tap(&mut self, now_ms: u64) -> (fire: bool)
        ensures
            (final(self).armed_view(), fire) == reset_tap(old(self).armed_view(), now_ms),
    {
        match self.armed_at {
            Some(_) => {
                self.armed_at = None;
                true
            },
            None => {
                self.armed_at = Some(now_ms);
                false
            },
        }
    }

    /// A clock tick at `now_ms`: lets a stale arm lapse.
    pub fn tick(&mut self, now_ms: u64)
        ensures
            final(self).armed_view() == reset_tick(old(self).armed_view(), now_ms),
    {
        if let Some(t) = self.armed_at {
            if now_ms >= t && now_ms - t >= RESET_DISARM_MS {
                self.armed_at = None;
            }
        }
    }
}

/// Law: two taps fire the reset when no tick between them comes
/// `RESET_DISARM_MS` or more after the first; a later tick makes the
/// second tap arm again instead, so a stale arm never fires.
pub proof fn lemma_reset_needs_timely_second_tap(t1: u64, tick: u64, t2: u64)
    ensures
        ({
            let (a1, f1) = reset_tap(None, t1);
            let a2 = reset_tick(a1, tick);
            let (a3, f2) = reset_tap(a2, t2);
            &&& !f1
            &&& f2 == !(tick >= t1 && tick - t1 >= RESET_DISARM_MS)
            &&& f2 ==> a3 is None
        }),
{
}

} // verus!
