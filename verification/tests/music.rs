use brume::music::{chord_notes, note_table, scale_notes, NOTE_TABLE_LEN};

#[test]
fn chords_stack_their_intervals_on_the_root() {
    assert_eq!(chord_notes(60, "maj"), vec![60, 64, 67]);
    assert_eq!(chord_notes(60, "min7"), vec![60, 63, 67, 70]);
    assert_eq!(chord_notes(57, "7"), vec![57, 61, 64, 67]);
    assert_eq!(chord_notes(57, "dom7"), vec![57, 61, 64, 67]);
    assert_eq!(chord_notes(48, "9"), vec![48, 52, 55, 58, 62]);
    assert_eq!(chord_notes(62, "sus4"), vec![62, 67, 69]);
}

#[test]
fn unknown_chord_type_is_a_major_triad() {
    assert_eq!(chord_notes(50, "lydian"), vec![50, 54, 57]);
    assert_eq!(chord_notes(50, ""), vec![50, 54, 57]);
}

#[test]
fn scales_follow_their_intervals() {
    assert_eq!(scale_notes(60, &vec![0, 2, 4, 5, 7, 9, 11]), vec![60, 62, 64, 65, 67, 69, 71]);
    assert!(scale_notes(60, &Vec::new()).is_empty());
}

#[test]
fn note_table_names_every_octave() {
    let t = note_table();
    assert_eq!(t.len(), NOTE_TABLE_LEN);
    assert_eq!(t[0], ("C0".to_string(), 12));
    assert!(t.contains(&("C4".to_string(), 60)));
    assert!(t.contains(&("A4".to_string(), 69)));
    assert!(t.contains(&("Cs1".to_string(), 25)));
    assert_eq!(t[NOTE_TABLE_LEN - 1], ("B8".to_string(), 119));
}
