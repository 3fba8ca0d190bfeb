//! The note helpers scripts get from the `brume` table: chords and
//! scales built on a root note, and the note-name table (`C4` = 60).

use vstd::prelude::*;
use crate::text::{str_eq, string_from_chars};
use crate::time_fmt::{digit, digit_char};

verus! {

/// The intervals, in semitones above the root, of a chord type; an
/// unknown type is a major triad.
pub open spec fn chord_intervals(t: Seq<char>) -> Seq<u8> {
    if t == "maj"@ {
        seq![0u8, 4, 7]
    } else if t == "min"@ {
        seq![0u8, 3, 7]
    } else if t == "maj7"@ {
        seq![0u8, 4, 7, 11]
    } else if t == "min7"@ {
        seq![0u8, 3, 7, 10]
    } else if t == "dom7"@ || t == "7"@ {
        seq![0u8, 4, 7, 10]
    } else if t == "dim"@ {
        seq![0u8, 3, 6]
    } else if t == "aug"@ {
        seq![0u8, 4, 8]
    } else if t == "sus2"@ {
        seq![0u8, 2, 7]
    } else if t == "sus4"@ {
        seq![0u8, 5, 7]
    } else if t == "9"@ {
        seq![0u8, 4, 7, 10, 14]
    } else {
        seq![0u8, 4, 7]
    }
}

/// Semitones in a major second.
pub const MAJOR_SECOND: u8 = 2;
/// Semitones in a minor third.
pub const MINOR_THIRD: u8 = 3;
/// Semitones in a major third.
pub const MAJOR_THIRD: u8 = 4;
/// Semitones in a perfect fourth.
pub const PERFECT_FOURTH: u8 = 5;
/// Semitones in a diminished fifth.
pub const DIMINISHED_FIFTH: u8 = 6;
/// Semitones in a perfect fifth.
pub const PERFECT_FIFTH: u8 = 7;
/// Semitones in an augmented fifth.
pub const AUGMENTED_FIFTH: u8 = 8;
/// Semitones in a minor seventh.
pub const MINOR_SEVENTH: u8 = 10;
/// Semitones in a major seventh.
pub const MAJOR_SEVENTH: u8 = 11;
/// Semitones in a major ninth.
pub const MAJOR_NINTH: u8 = 14;

/// Law: each chord type is built from the intervals its name says. The
/// major family (`maj`, `maj7`, `dom7`/`7`, `aug`, `9`) has a major
/// third over the root, the minor family (`min`, `min7`, `dim`) a minor
/// third, the suspended chords a second or a fourth in its place; the
/// fifth is perfect except in `dim` (diminished) and `aug` (augmented);
/// the seventh chords add a major (`maj7`) or minor seventh, and `9`
/// a major ninth over the dominant seventh.
#[verifier::spinoff_prover]
pub proof fn lemma_chord_qualities()
    ensures
        chord_intervals("maj"@) == seq![0u8, MAJOR_THIRD, PERFECT_FIFTH],
        chord_intervals("min"@) == seq![0u8, MINOR_THIRD, PERFECT_FIFTH],
        chord_intervals("maj7"@) == seq![0u8, MAJOR_THIRD, PERFECT_FIFTH, MAJOR_SEVENTH],
        chord_intervals("min7"@) == seq![0u8, MINOR_THIRD, PERFECT_FIFTH, MINOR_SEVENTH],
        chord_intervals("dom7"@) == seq![0u8, MAJOR_THIRD, PERFECT_FIFTH, MINOR_SEVENTH],
        chord_intervals("7"@) == seq![0u8, MAJOR_THIRD, PERFECT_FIFTH, MINOR_SEVENTH],
        chord_intervals("dim"@) == seq![0u8, MINOR_THIRD, DIMINISHED_FIFTH],
        chord_intervals("aug"@) == seq![0u8, MAJOR_THIRD, AUGMENTED_FIFTH],
        chord_intervals("sus2"@) == seq![0u8, MAJOR_SECOND, PERFECT_FIFTH],
        chord_intervals("sus4"@) == seq![0u8, PERFECT_FOURTH, PERFECT_FIFTH],
        chord_intervals("9"@) == seq![0u8, MAJOR_THIRD, PERFECT_FIFTH, MINOR_SEVENTH, MAJOR_NINTH],
{
    reveal_strlit("maj");
    reveal_strlit("min");
    reveal_strlit("maj7");
    reveal_strlit("min7");
    reveal_strlit("dom7");
    reveal_strlit("7");
    reveal_strlit("dim");
    reveal_strlit("aug");
    reveal_strlit("sus2");
    reveal_strlit("sus4");
    reveal_strlit("9");
    assert("min"@[1] != "maj"@[1]);
    assert("maj7"@.len() != "maj"@.len() && "maj7"@.len() != "min"@.len());
    assert("min7"@.len() != "maj"@.len() && "min7"@.len() != "min"@.len());
    assert("min7"@[1] != "maj7"@[1]);
    assert("dom7"@[0] != "maj7"@[0] && "dom7"@[0] != "min7"@[0]);
    assert("dim"@[0] != "maj"@[0] && "dim"@[0] != "min"@[0]);
    assert("dim"@.len() != "maj7"@.len() && "dim"@.len() != "min7"@.len() && "dim"@.len() != "dom7"@.len()
        && "dim"@.len() != "7"@.len());
    assert("aug"@.len() != "maj7"@.len() && "aug"@.len() != "min7"@.len() && "aug"@.len() != "dom7"@.len()
        && "aug"@.len() != "7"@.len());
    assert("sus2"@.len() != "maj"@.len() && "sus2"@.len() != "min"@.len() && "sus2"@.len() != "7"@.len()
        && "sus2"@.len() != "dim"@.len() && "sus2"@.len() != "aug"@.len());
    assert("sus4"@.len() != "maj"@.len() && "sus4"@.len() != "min"@.len() && "sus4"@.len() != "7"@.len()
        && "sus4"@.len() != "dim"@.len() && "sus4"@.len() != "aug"@.len());
    assert("9"@.len() != "maj"@.len() && "9"@.len() != "min"@.len() && "9"@.len() != "maj7"@.len()
        && "9"@.len() != "min7"@.len() && "9"@.len() != "dom7"@.len() && "9"@.len() != "dim"@.len()
        && "9"@.len() != "aug"@.len() && "9"@.len() != "sus2"@.len() && "9"@.len() != "sus4"@.len());
    assert("7"@.len() != "maj"@.len() && "7"@.len() != "min"@.len() && "7"@.len() != "maj7"@.len()
        && "7"@.len() != "min7"@.len() && "7"@.len() != "dom7"@.len());
    assert("dom7"@.len() != "maj"@.len() && "dom7"@.len() != "min"@.len());
    assert("aug"@[0] != "maj"@[0] && "aug"@[0] != "min"@[0] && "aug"@[0] != "dim"@[0]);
    assert("sus2"@[0] != "maj7"@[0] && "sus2"@[0] != "min7"@[0] && "sus2"@[0] != "dom7"@[0]);
    assert("sus4"@[0] != "maj7"@[0] && "sus4"@[0] != "min7"@[0] && "sus4"@[0] != "dom7"@[0]
        && "sus4"@[3] != "sus2"@[3]);
    assert("9"@[0] != "7"@[0]);
}

/// Law: every chord starts on its root and climbs: the intervals begin
/// at 0 and strictly increase, a chord has three to five notes, and its
/// second note is a second to a fourth above the root.
pub proof fn lemma_chords_climb(t: Seq<char>)
    ensures
        3 <= chord_intervals(t).len() <= 5,
        chord_intervals(t)[0] == 0,
        MAJOR_SECOND <= chord_intervals(t)[1] <= PERFECT_FOURTH,
        forall|i: int, j: int|
            0 <= i < j < chord_intervals(t).len() ==> chord_intervals(t)[i] < chord_intervals(t)[j],
{
}

/// The notes `root + interval` for each interval, in order.
pub open spec fn transposed(root: u8, intervals: Seq<u8>) -> Seq<u8> {
    intervals.map_values(|iv: u8| (root + iv) as u8)
}

/// The intervals of chord type `chord_type`.
fn chord_interval_list(chord_type: &str) -> (r: Vec<u8>)
    ensures
        r@ == chord_intervals(chord_type@),
{
    let r: Vec<u8> = if str_eq(chord_type, "maj") {
        vec![0, 4, 7]
    } else if str_eq(chord_type, "min") {
        vec![0, 3, 7]
    } else if str_eq(chord_type, "maj7") {
        vec![0, 4, 7, 11]
    } else if str_eq(chord_type, "min7") {
        vec![0, 3, 7, 10]
    } else if str_eq(chord_type, "dom7") || str_eq(chord_type, "7") {
        vec![0, 4, 7, 10]
    } else if str_eq(chord_type, "dim") {
        vec![0, 3, 6]
    } else if str_eq(chord_type, "aug") {
        vec![0, 4, 8]
    } else if str_eq(chord_type, "sus2") {
        vec![0, 2, 7]
    } else if str_eq(chord_type, "sus4") {
        vec![0, 5, 7]
    } else if str_eq(chord_type, "9") {
        vec![0, 4, 7, 10, 14]
    } else {
        vec![0, 4, 7]
    };
    assert(r@ =~= chord_intervals(chord_type@));
    r
}

/// The notes `root + interval` for each of `intervals`, in order: a
/// scale given by its intervals. Every note must fit in a byte.
pub fn scale_notes(root: u8, intervals: &Vec<u8>) -> (r: Vec<u8>)
    requires
        forall|i: int| 0 <= i < intervals@.len() ==> root + #[trigger] intervals@[i] <= u8::MAX,
    ensures
        r@ == transposed(root, intervals@),
{
    let mut r: Vec<u8> = Vec::new();
    let mut i: usize = 0;
    while i < intervals.len()
        invariant
            i <= intervals.len(),
            forall|j: int| 0 <= j < intervals@.len() ==> root + #[trigger] intervals@[j] <= u8::MAX,
            r@ =~= transposed(root, intervals@.take(i as int)),
        decreases intervals.len() - i,
    {
        let iv = intervals[i];
        r.push(root + iv);
        i = i + 1;
        assert(intervals@.take(i as int) =~= intervals@.take(i - 1).push(iv));
    }
    assert(intervals@.take(intervals.len() as int) =~= intervals@);
    r
}

/// The chord of type `chord_type` on `root` (`maj`, `min`, `maj7`,
/// `min7`, `dom7` or `7`, `dim`, `aug`, `sus2`, `sus4`, `9`; any other
/// type gives a major triad). Every note must fit in a byte.
pub fn chord_notes(root: u8, chord_type: &str) -> (r: Vec<u8>)
    requires
        forall|i: int|
            0 <= i < chord_intervals(chord_type@).len() ==> root + #[trigger] chord_intervals(chord_type@)[i]
                <= u8::MAX,
    ensures
        r@ == transposed(root, chord_intervals(chord_type@)),
{
    let intervals = chord_interval_list(chord_type);
    scale_notes(root, &intervals)
}

/// Name of pitch class `i` (0 = C) in the note table; sharps are
/// written with an `s`.
pub open spec fn pitch_name(i: int) -> Seq<char> {
    if i == 0 {
        seq!['C']
    } else if i == 1 {
        seq!['C', 's']
    } else if i == 2 {
        seq!['D']
    } else if i == 3 {
        seq!['D', 's']
    } else if i == 4 {
        seq!['E']
    } else if i == 5 {
        seq!['F']
    } else if i == 6 {
        seq!['F', 's']
    } else if i == 7 {
        seq!['G']
    } else if i == 8 {
        seq!['G', 's']
    } else if i == 9 {
        seq!['A']
    } else if i == 10 {
        seq!['A', 's']
    } else {
        seq!['B']
    }
}

/// Entry `k` of the note table: pitch class `k % 12` in octave
/// `k / 12`, named like `Cs4`, with MIDI number `(octave + 1) * 12 +
/// pitch` (so `C4` is 60 and `A4` is 69).
pub open spec fn note_entry(k: int) -> (Seq<char>, int) {
    (pitch_name(k % 12).push(digit_char(k / 12)), (k / 12 + 1) * 12 + k % 12)
}

/// Number of entries in the note table: twelve pitches in each of the
/// octaves 0 through 8, every one of them a MIDI note.
pub const NOTE_TABLE_LEN: usize = 108;

/// The name of pitch class `i` (0..=11).
fn pitch_chars(i: usize) -> (v: Vec<char>)
    requires
        i < 12,
    ensures
        v@ == pitch_name(i as int),
{
    let v: Vec<char> = if i == 0 {
        vec!['C']
    } else if i == 1 {
        vec!['C', 's']
    } else if i == 2 {
        vec!['D']
    } else if i == 3 {
        vec!['D', 's']
    } else if i == 4 {
        vec!['E']
    } else if i == 5 {
        vec!['F']
    } else if i == 6 {
        vec!['F', 's']
    } else if i == 7 {
        vec!['G']
    } else if i == 8 {
        vec!['G', 's']
    } else if i == 9 {
        vec!['A']
    } else if i == 10 {
        vec!['A', 's']
    } else {
        vec!['B']
    };
    assert(v@ =~= pitch_name(i as int));
    v
}

/// The note-name table scripts see as `note`: octave by octave from 0
/// to 8, pitch by pitch from C, each name with its MIDI number.
pub fn note_table() -> (r: Vec<(String, u8)>)
    ensures
        r@.len() == NOTE_TABLE_LEN,
        forall|k: int|
            0 <= k < NOTE_TABLE_LEN ==> (#[trigger] r@[k]).0@ == note_entry(k).0 && r@[k].1 == note_entry(
                k,
            ).1,
{
    let mut r: Vec<(String, u8)> = Vec::new();
    let mut octave: usize = 0;
    while octave <= 8
        invariant
            octave <= 9,
            r@.len() == octave * 12,
            forall|k: int|
                0 <= k < octave * 12 ==> (#[trigger] r@[k]).0@ == note_entry(k).0 && r@[k].1 == note_entry(
                    k,
                ).1,
        decreases 9 - octave,
    {
        let mut i: usize = 0;
        while i < 12
            invariant
                octave <= 8,
                i <= 12,
                r@.len() == octave * 12 + i,
                forall|k: int|
                    0 <= k < octave * 12 + i ==> (#[trigger] r@[k]).0@ == note_entry(k).0 && r@[k].1
                        == note_entry(k).1,
            decreases 12 - i,
        {
            let midi = (octave + 1) * 12 + i;
            if midi <= 127 {
                let mut name = pitch_chars(i);
                name.push(digit(octave as u64));
                let ghost k = (octave * 12 + i) as int;
                proof {
                    assert(k / 12 == octave as int && k % 12 == i as int) by (nonlinear_arith)
                        requires
                            k == octave * 12 + i,
                            i < 12,
                    ;
                }
                r.push((string_from_chars(&name), midi as u8));
            }
            i = i + 1;
        }
        octave = octave + 1;
    }
    r
}

} // verus!
