//! The on-screen keyboard's note bookkeeping: which notes each finger
//! (or the mouse) is sounding, HOLD, CHORD and the octave. Every change
//! returns the note events to send, in order. A finger remembers the
//! notes it started, not the key, so shifting the octave or toggling
//! CHORD mid-press cannot strand a note.

use std::collections::HashMap;
use vstd::prelude::*;
use crate::ui::{chord_voicing, key_note, key_to_midi, octave_after, shift_octave, voicing};

verus! {

broadcast use vstd::std_specs::hash::group_hash_axioms;

/// The finger id the mouse cursor uses; touch fingers have their own.
pub const MOUSE_FINGER_ID: u64 = 0xFFFF_FFFF_FFFF_FFFFu64;

/// A note to start or stop on the active part.
#[derive(Debug, Clone, Copy, PartialEq, Eq, Structural)]
pub enum NoteEvent {
    On(u8),
    Off(u8),
}

/// The keyboard as a value: octave, the notes each finger sounds, the
/// notes HOLD sustains, and the three toggles.
pub struct KeyboardModel {
    pub octave: i8,
    pub fingers: Map<u64, Seq<u8>>,
    pub held: Seq<u8>,
    pub hold: bool,
    pub retrig: bool,
    pub chord: bool,
}

/// Note-on events for `notes`, in order.
pub open spec fn ons(notes: Seq<u8>) -> Seq<NoteEvent> {
    notes.map_values(|n: u8| NoteEvent::On(n))
}

/// Note-off events for `notes`, in order.
pub open spec fn offs(notes: Seq<u8>) -> Seq<NoteEvent> {
    notes.map_values(|n: u8| NoteEvent::Off(n))
}

/// The id a press is filed under: the finger's, or the mouse's.
pub open spec fn finger_id(finger: Option<u64>) -> u64 {
    match finger {
        Some(f) => f,
        None => MOUSE_FINGER_ID,
    }
}

/// Releasing a voicing: with HOLD on the notes join the held set and
/// nothing is sent; otherwise each note is stopped.
pub open spec fn release_notes(m: KeyboardModel, notes: Seq<u8>) -> (KeyboardModel, Seq<NoteEvent>) {
    if m.hold {
        (KeyboardModel { held: m.held + notes, ..m }, Seq::empty())
    } else {
        (m, offs(notes))
    }
}

/// A finger already sounding `old` lands on a key whose voicing is
/// `new`: the same root leaves everything as it is; another root
/// releases `old` and starts `new`.
pub open spec fn retarget(m: KeyboardModel, fid: u64, old: Seq<u8>, new: Seq<u8>) -> (KeyboardModel, Seq<NoteEvent>) {
    if old[0] == new[0] {
        (m, Seq::empty())
    } else {
        let (m1, e1) = release_notes(KeyboardModel { fingers: m.fingers.remove(fid), ..m }, old);
        (KeyboardModel { fingers: m1.fingers.insert(fid, new), ..m1 }, e1 + ons(new))
    }
}

/// The voicing key `key` sounds in state `m`.
pub open spec fn key_voicing(m: KeyboardModel, key: u8) -> Seq<u8> {
    voicing(m.chord, key_note(m.octave, key) as u8)
}

/// A press of `key`.
pub open spec fn press_step(m: KeyboardModel, finger: Option<u64>, key: u8) -> (KeyboardModel, Seq<NoteEvent>) {
    let fid = finger_id(finger);
    let new = key_voicing(m, key);
    if m.fingers.contains_key(fid) {
        retarget(m, fid, m.fingers[fid], new)
    } else {
        (KeyboardModel { fingers: m.fingers.insert(fid, new), ..m }, ons(new))
    }
}

/// A pressed finger sliding onto `key` (glissando); a finger that is
/// not down does nothing.
pub open spec fn move_step(m: KeyboardModel, finger: Option<u64>, key: u8) -> (KeyboardModel, Seq<NoteEvent>) {
    let fid = finger_id(finger);
    if m.fingers.contains_key(fid) {
        retarget(m, fid, m.fingers[fid], key_voicing(m, key))
    } else {
        (m, Seq::empty())
    }
}

/// A finger lifting.
pub open spec fn release_step(m: KeyboardModel, finger: Option<u64>) -> (KeyboardModel, Seq<NoteEvent>) {
    let fid = finger_id(finger);
    if m.fingers.contains_key(fid) {
        release_notes(KeyboardModel { fingers: m.fingers.remove(fid), ..m }, m.fingers[fid])
    } else {
        (m, Seq::empty())
    }
}

/// HOLD toggled: turning it off stops every held note.
pub open spec fn toggle_hold_step(m: KeyboardModel) -> (KeyboardModel, Seq<NoteEvent>) {
    if m.hold {
        (KeyboardModel { hold: false, held: Seq::empty(), ..m }, offs(m.held))
    } else {
        (KeyboardModel { hold: true, ..m }, Seq::empty())
    }
}

/// Every note sounding or held is a MIDI note, and each finger sounds
/// a root and at most two more notes.
pub open spec fn model_wf(m: KeyboardModel) -> bool {
    &&& -1 <= m.octave <= 9
    &&& m.fingers.dom().finite()
    &&& forall|f: u64| #[trigger] m.fingers.contains_key(f) ==> 1 <= m.fingers[f].len() <= 3 && forall|i: int|
        0 <= i < m.fingers[f].len() ==> #[trigger] m.fingers[f][i] <= 127
    &&& forall|i: int| 0 <= i < m.held.len() ==> #[trigger] m.held[i] <= 127
}

/// The keyboard's state.
pub struct KeyboardState {
    octave: i8,
    fingers: HashMap<u64, Vec<u8>>,
    held: Vec<u8>,
    hold: bool,
    retrig: bool,
    chord: bool,
}

impl View for KeyboardState {
    type V = KeyboardModel;

    closed spec fn view(&self) -> KeyboardModel {
        KeyboardModel {
            octave: self.octave,
            fingers: self.fingers@.map_values(|v: Vec<u8>| v@),
            held: self.held@,
            hold: self.hold,
            retrig: self.retrig,
            chord: self.chord,
        }
    }
}

/// Appends a note-on or note-off event for each of `notes`.
fn push_events(ev: &mut Vec<NoteEvent>, notes: &Vec<u8>, on: bool)
    ensures
        final(ev)@ == old(ev)@ + (if on {
            ons(notes@)
        } else {
            offs(notes@)
        }),
{
    let ghost start = ev@;
    let mut i: usize = 0;
    while i < notes.len()
        invariant
            i <= notes.len(),
            ev@ =~= start + (if on {
                ons(notes@.take(i as int))
            } else {
                offs(notes@.take(i as int))
            }),
        decreases notes.len() - i,
    {
        let n = notes[i];
        ev.push(if on {
            NoteEvent::On(n)
        } else {
            NoteEvent::Off(n)
        });
        i = i + 1;
        proof {
            assert(notes@.take(i as int) =~= notes@.take(i - 1).push(n));
        }
    }
    proof {
        assert(notes@.take(notes.len() as int) =~= notes@);
    }
}

impl KeyboardState {
    /// Octave 4 (middle C on the first key), nothing pressed or held,
    /// HOLD, RETRIG and CHORD off.
    pub fn new() -> (k: Self)
        ensures
            model_wf(k@),
            k@.octave == 4,
            k@.fingers == Map::<u64, Seq<u8>>::empty(),
            k@.held == Seq::<u8>::empty(),
            !k@.hold && !k@.retrig && !k@.chord,
    {
        let k = KeyboardState {
            octave: 4,
            fingers: HashMap::new(),
            held: Vec::new(),
            hold: false,
            retrig: false,
            chord: false,
        };
        assert(k@.fingers =~= Map::<u64, Seq<u8>>::empty());
        k
    }

    /// The octave of the strip's first key.
    pub fn octave(&self) -> (o: i8)
        ensures
            o == self@.octave,
    {
        self.octave
    }

    /// Whether HOLD is on.
    pub fn hold_enabled(&self) -> (b: bool)
        ensures
            b == self@.hold,
    {
        self.hold
    }

    /// Whether RETRIG is on.
    pub fn retrig_enabled(&self) -> (b: bool)
        ensures
            b == self@.retrig,
    {
        self.retrig
    }

    /// Whether CHORD is on.
    pub fn chord_enabled(&self) -> (b: bool)
        ensures
            b == self@.chord,
    {
        self.chord
    }

    /// Number of notes HOLD is sustaining.
    pub fn held_len(&self) -> (n: usize)
        ensures
            n == self@.held.len(),
    {
        self.held.len()
    }

    /// Releases `notes` (see `release_notes`).
    fn release_voicing(&mut self, notes: Vec<u8>) -> (ev: Vec<NoteEvent>)
        requires
            model_wf(old(self)@),
            forall|i: int| 0 <= i < notes.len() ==> #[trigger] notes@[i] <= 127,
        ensures
            model_wf(final(self)@),
            (final(self)@, ev@) == release_notes(old(self)@, notes@),
    {
        let mut ev: Vec<NoteEvent> = Vec::new();
        if self.hold {
            let ghost start = self.held@;
            let mut i: usize = 0;
            while i < notes.len()
                invariant
                    i <= notes.len(),
                    model_wf(old(self)@),
                    forall|j: int| 0 <= j < notes.len() ==> #[trigger] notes@[j] <= 127,
                    start == old(self)@.held,
                    self@ == (KeyboardModel { held: start + notes@.take(i as int), ..old(self)@ }),
                decreases notes.len() - i,
            {
                self.held.push(notes[i]);
                i = i + 1;
                proof {
                    assert(notes@.take(i as int) =~= notes@.take(i - 1).push(notes@[i - 1]));
                    assert(self@.held =~= start + notes@.take(i as int));
                }
            }
            proof {
                assert(notes@.take(notes.len() as int) =~= notes@);
                assert(ev@ =~= Seq::<NoteEvent>::empty());
                let h = self@.held;
                assert forall|j: int| 0 <= j < h.len() implies #[trigger] h[j] <= 127 by {
                    if j < start.len() {
                        assert(h[j] == start[j]);
                    } else {
                        assert(h[j] == notes@[j - start.len()]);
                    }
                }
            }
        } else {
            push_events(&mut ev, &notes, false);
            assert(ev@ =~= offs(notes@));
        }
        ev
    }

    /// Files `notes` under `fid` and starts them.
    fn start_voicing(&mut self, fid: u64, notes: Vec<u8>, ev: &mut Vec<NoteEvent>)
        requires
            model_wf(old(self)@),
            1 <= notes.len() <= 3,
            forall|i: int| 0 <= i < notes.len() ==> #[trigger] notes@[i] <= 127,
        ensures
            model_wf(final(self)@),
            final(self)@ == (KeyboardModel { fingers: old(self)@.fingers.insert(fid, notes@), ..old(self)@ }),
            final(ev)@ == old(ev)@ + ons(notes@),
    {
        push_events(ev, &notes, true);
        let ghost before = self.fingers@;
        let ghost nv = notes@;
        self.fingers.insert(fid, notes);
        proof {
            assert(self.fingers@ == before.insert(fid, notes));
            assert(self@.fingers =~= old(self)@.fingers.insert(fid, nv));
        }
    }

    /// A press of `key` by `finger` (the mouse when `None`).
    pub fn press(&mut self, finger: Option<u64>, key: u8) -> (ev: Vec<NoteEvent>)
        requires
            model_wf(old(self)@),
        ensures
            model_wf(final(self)@),
            (final(self)@, ev@) == press_step(old(self)@, finger, key),
    {
        let fid = match finger {
            Some(f) => f,
            None => MOUSE_FINGER_ID,
        };
        let root = key_to_midi(self.octave, key);
        let new_notes = chord_voicing(self.chord, root);
        self.retarget_or_start(fid, new_notes, true)
    }

    /// A pressed finger sliding onto `key`.
    pub fn move_to(&mut self, finger: Option<u64>, key: u8) -> (ev: Vec<NoteEvent>)
        requires
            model_wf(old(self)@),
        ensures
            model_wf(final(self)@),
            (final(self)@, ev@) == move_step(old(self)@, finger, key),
    {
        let fid = match finger {
            Some(f) => f,
            None => MOUSE_FINGER_ID,
        };
        let root = key_to_midi(self.octave, key);
        let new_notes = chord_voicing(self.chord, root);
        self.retarget_or_start(fid, new_notes, false)
    }

    /// Moves `fid` onto `new_notes`; a finger that is not down starts
    /// them when `start` holds and is ignored otherwise.
    fn retarget_or_start(&mut self, fid: u64, new_notes: Vec<u8>, start: bool) -> (ev: Vec<NoteEvent>)
        requires
            model_wf(old(self)@),
            1 <= new_notes.len() <= 3,
            forall|i: int| 0 <= i < new_notes.len() ==> #[trigger] new_notes@[i] <= 127,
        ensures
            model_wf(final(self)@),
            old(self)@.fingers.contains_key(fid) ==> (final(self)@, ev@) == retarget(
                old(self)@,
                fid,
                old(self)@.fingers[fid],
                new_notes@,
            ),
            !old(self)@.fingers.contains_key(fid) && start ==> (final(self)@, ev@) == (
            KeyboardModel { fingers: old(self)@.fingers.insert(fid, new_notes@), ..old(self)@ }, ons(
                new_notes@,
            )),
            !old(self)@.fingers.contains_key(fid) && !start ==> final(self)@ == old(self)@ && ev@.len()
                == 0,
    {
        let ghost m = self@;
        let ghost before = self.fingers@;
        let mut ev: Vec<NoteEvent> = Vec::new();
        match self.fingers.remove(&fid) {
            Some(old_notes) => {
                proof {
                    assert(before.contains_key(fid) && before[fid] == old_notes);
                    assert(m.fingers.contains_key(fid));
                    assert(m.fingers[fid] == old_notes@);
                }
                if old_notes[0] == new_notes[0] {
                    self.fingers.insert(fid, old_notes);
                    proof {
                        assert(self.fingers@ =~= before);
                        assert(ev@ =~= Seq::<NoteEvent>::empty());
                    }
                    return ev;
                }
                proof {
                    assert(self@.fingers =~= m.fingers.remove(fid));
                    lemma_wf_remove(m, fid);
                }
                ev = self.release_voicing(old_notes);
                self.start_voicing(fid, new_notes, &mut ev);
                ev
            },
            None => {
                proof {
                    assert(!m.fingers.contains_key(fid));
                    assert(self.fingers@ =~= before);
                }
                if start {
                    self.start_voicing(fid, new_notes, &mut ev);
                    assert(ev@ =~= ons(new_notes@));
                } else {
                    assert(self@ == m);
                }
                ev
            },
        }
    }

    /// `finger` lifting (the mouse button when `None`).
    pub fn release(&mut self, finger: Option<u64>) -> (ev: Vec<NoteEvent>)
        requires
            model_wf(old(self)@),
        ensures
            model_wf(final(self)@),
            (final(self)@, ev@) == release_step(old(self)@, finger),
    {
        let fid = match finger {
            Some(f) => f,
            None => MOUSE_FINGER_ID,
        };
        let ghost m = self@;
        let ghost before = self.fingers@;
        match self.fingers.remove(&fid) {
            Some(notes) => {
                proof {
                    assert(m.fingers.contains_key(fid));
                    assert(m.fingers[fid] == notes@);
                    assert(self@.fingers =~= m.fingers.remove(fid));
                    lemma_wf_remove(m, fid);
                }
                self.release_voicing(notes)
            },
            None => {
                proof {
                    assert(self.fingers@ =~= before);
                }
                let ev: Vec<NoteEvent> = Vec::new();
                assert(ev@ =~= Seq::<NoteEvent>::empty());
                ev
            },
        }
    }

    /// The octave one step down or up, kept within -1..=9.
    pub fn shift(&mut self, up: bool)
        requires
            model_wf(old(self)@),
        ensures
            model_wf(final(self)@),
            final(self)@ == (KeyboardModel { octave: octave_after(old(self)@.octave, up), ..old(self)@ }),
    {
        self.octave = shift_octave(self.octave, up);
    }

    /// HOLD toggled; turning it off returns the note-offs of every note
    /// it was sustaining. Pressed fingers are untouched.
    pub fn toggle_hold(&mut self) -> (ev: Vec<NoteEvent>)
        requires
            model_wf(old(self)@),
        ensures
            model_wf(final(self)@),
            (final(self)@, ev@) == toggle_hold_step(old(self)@),
    {
        let mut ev: Vec<NoteEvent> = Vec::new();
        if self.hold {
            self.hold = false;
            let mut to_release: Vec<u8> = Vec::new();
            std::mem::swap(&mut to_release, &mut self.held);
            push_events(&mut ev, &to_release, false);
            assert(ev@ =~= offs(old(self)@.held));
            assert(self.held@ =~= Seq::<u8>::empty());
        } else {
            self.hold = true;
            assert(ev@ =~= Seq::<NoteEvent>::empty());
            assert(self@.held == old(self)@.held);
        }
        ev
    }

    /// RETRIG toggled.
    pub fn toggle_retrig(&mut self)
        ensures
            final(self)@ == (KeyboardModel { retrig: !old(self)@.retrig, ..old(self)@ }),
    {
        self.retrig = !self.retrig;
    }

    /// CHORD toggled; fingers already down keep the notes they started.
    pub fn toggle_chord(&mut self)
        requires
            model_wf(old(self)@),
        ensures
            model_wf(final(self)@),
            final(self)@ == (KeyboardModel { chord: !old(self)@.chord, ..old(self)@ }),
    {
        self.chord = !self.chord;
    }
}

/// Dropping a finger keeps the state well formed.
proof fn lemma_wf_remove(m: KeyboardModel, fid: u64)
    requires
        model_wf(m),
    ensures
        model_wf(KeyboardModel { fingers: m.fingers.remove(fid), ..m }),
{
    let r = m.fingers.remove(fid);
    assert forall|f: u64| #[trigger] r.contains_key(f) implies 1 <= r[f].len() <= 3 && forall|i: int|
        0 <= i < r[f].len() ==> #[trigger] r[f][i] <= 127 by {
        assert(m.fingers.contains_key(f));
    }
}

/// Law: without HOLD, lifting a finger stops exactly the notes its
/// press started, whatever octave or CHORD changes came in between, and
/// leaves the other fingers as they were.
pub proof fn lemma_release_matches_press(m: KeyboardModel, finger: Option<u64>, key: u8, octave: i8, chord: bool)
    requires
        !m.hold,
        !m.fingers.contains_key(finger_id(finger)),
    ensures
        ({
            let notes = key_voicing(m, key);
            let (m1, e1) = press_step(m, finger, key);
            let m2 = KeyboardModel { octave, chord, ..m1 };
            let (m3, e2) = release_step(m2, finger);
            &&& e1 == ons(notes)
            &&& e2 == offs(notes)
            &&& m3.fingers == m.fingers
        }),
{
    let fid = finger_id(finger);
    let notes = key_voicing(m, key);
    assert(m.fingers.insert(fid, notes).remove(fid) =~= m.fingers);
}

/// Law: with HOLD on, lifting a finger sends nothing, and turning HOLD
/// off then stops every sustained note, that finger's included, and
/// leaves nothing held.
pub proof fn lemma_hold_defers_release(m: KeyboardModel, finger: Option<u64>)
    requires
        m.hold,
        m.fingers.contains_key(finger_id(finger)),
    ensures
        ({
            let (m1, e1) = release_step(m, finger);
            let (m2, e2) = toggle_hold_step(m1);
            &&& e1.len() == 0
            &&& e2 == offs(m.held + m.fingers[finger_id(finger)])
            &&& m2.held.len() == 0
            &&& !m2.hold
        }),
{
}

/// Law: a press or a glissando that moves a sounding finger onto a key
/// with another root lets go of the finger's whole voicing. Without
/// HOLD every old note gets a note-off, in order, before the new notes
/// start; with HOLD every old note joins the held set and only the new
/// notes are sent. Either way the finger then sounds the new voicing
/// and no other finger changes.
pub proof fn lemma_retarget_releases_whole_voicing(m: KeyboardModel, finger: Option<u64>, key: u8)
    requires
        m.fingers.contains_key(finger_id(finger)),
        m.fingers[finger_id(finger)].len() >= 1,
        key_voicing(m, key)[0] != m.fingers[finger_id(finger)][0],
    ensures
        ({
            let fid = finger_id(finger);
            let old = m.fingers[fid];
            let new = key_voicing(m, key);
            forall|r: (KeyboardModel, Seq<NoteEvent>)|
                r == move_step(m, finger, key) || r == press_step(m, finger, key) ==> {
                    &&& r.0.fingers == m.fingers.insert(fid, new)
                    &&& r.0.hold == m.hold
                    &&& !m.hold ==> {
                        &&& r.1.len() == old.len() + new.len()
                        &&& forall|i: int| 0 <= i < old.len() ==> r.1[i] == NoteEvent::Off(old[i])
                        &&& forall|j: int| 0 <= j < new.len() ==> r.1[old.len() + j] == NoteEvent::On(new[j])
                        &&& r.0.held == m.held
                    }
                    &&& m.hold ==> {
                        &&& r.1.len() == new.len()
                        &&& forall|j: int| 0 <= j < new.len() ==> r.1[j] == NoteEvent::On(new[j])
                        &&& r.0.held.len() == m.held.len() + old.len()
                        &&& forall|i: int| 0 <= i < m.held.len() ==> r.0.held[i] == m.held[i]
                        &&& forall|i: int| 0 <= i < old.len() ==> r.0.held[m.held.len() + i] == old[i]
                    }
                }
        }),
{
    let fid = finger_id(finger);
    let old = m.fingers[fid];
    let new = key_voicing(m, key);
    assert(m.fingers.remove(fid).insert(fid, new) =~= m.fingers.insert(fid, new));
    if !m.hold {
        let e = offs(old) + ons(new);
        assert(forall|i: int| 0 <= i < old.len() ==> e[i] == NoteEvent::Off(old[i]));
        assert(forall|j: int| 0 <= j < new.len() ==> e[old.len() + j] == NoteEvent::On(new[j]));
    } else {
        let e = Seq::<NoteEvent>::empty() + ons(new);
        assert(e =~= ons(new));
    }
}

/// Law: a press or a glissando on a finger already sounding the same
/// root changes nothing and sends nothing.
pub proof fn lemma_same_root_is_inert(m: KeyboardModel, finger: Option<u64>, key: u8)
    requires
        m.fingers.contains_key(finger_id(finger)),
        m.fingers[finger_id(finger)].len() >= 1,
        m.fingers[finger_id(finger)][0] == key_note(m.octave, key) as u8,
    ensures
        press_step(m, finger, key) == (m, Seq::<NoteEvent>::empty()),
        move_step(m, finger, key) == (m, Seq::<NoteEvent>::empty()),
{
}

} // verus!
