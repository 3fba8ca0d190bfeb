use brume::keyboard::{KeyboardState, NoteEvent};
use NoteEvent::{Off, On};

#[test]
fn keyboard_starts_at_octave_four() {
    let k = KeyboardState::new();
    assert_eq!(k.octave(), 4);
    assert!(!k.hold_enabled() && !k.retrig_enabled() && !k.chord_enabled());
    assert_eq!(k.held_len(), 0);
}

#[test]
fn keyboard_press_and_release_mouse() {
    let mut k = KeyboardState::new();
    assert_eq!(k.press(None, 0), vec![On(60)]);
    assert_eq!(k.release(None), vec![Off(60)]);
    assert_eq!(k.release(None), vec![]);
}

#[test]
fn keyboard_octave_shift_mid_press_releases_started_note() {
    let mut k = KeyboardState::new();
    assert_eq!(k.press(Some(7), 0), vec![On(60)]);
    k.shift(true);
    assert_eq!(k.octave(), 5);
    assert_eq!(k.release(Some(7)), vec![Off(60)]);
    assert_eq!(k.press(Some(7), 0), vec![On(72)]);
}

#[test]
fn keyboard_chord_voicing_follows_the_press() {
    let mut k = KeyboardState::new();
    k.toggle_chord();
    assert_eq!(k.press(None, 0), vec![On(60), On(64), On(67)]);
    k.toggle_chord();
    assert_eq!(k.release(None), vec![Off(60), Off(64), Off(67)]);
}

#[test]
fn keyboard_glissando_moves_between_keys() {
    let mut k = KeyboardState::new();
    assert_eq!(k.move_to(None, 3), vec![]);
    k.press(None, 0);
    assert_eq!(k.move_to(None, 2), vec![Off(60), On(62)]);
    assert_eq!(k.move_to(None, 2), vec![]);
    assert_eq!(k.press(None, 2), vec![]);
    assert_eq!(k.release(None), vec![Off(62)]);
}

#[test]
fn keyboard_hold_defers_note_offs() {
    let mut k = KeyboardState::new();
    assert_eq!(k.toggle_hold(), vec![]);
    assert!(k.hold_enabled());
    k.press(Some(1), 0);
    k.press(Some(2), 4);
    assert_eq!(k.release(Some(1)), vec![]);
    assert_eq!(k.move_to(Some(2), 5), vec![On(65)]);
    assert_eq!(k.held_len(), 2);
    assert_eq!(k.toggle_hold(), vec![Off(60), Off(64)]);
    assert_eq!(k.held_len(), 0);
    // The finger still down releases normally.
    assert_eq!(k.release(Some(2)), vec![Off(65)]);
}

#[test]
fn keyboard_octave_clamps_and_notes_stay_in_range() {
    let mut k = KeyboardState::new();
    for _ in 0..10 {
        k.shift(true);
    }
    assert_eq!(k.octave(), 9);
    k.toggle_chord();
    assert_eq!(k.press(None, 12), vec![On(127), On(127), On(127)]);
    for _ in 0..20 {
        k.shift(false);
    }
    assert_eq!(k.octave(), -1);
    k.toggle_retrig();
    assert!(k.retrig_enabled());
}
