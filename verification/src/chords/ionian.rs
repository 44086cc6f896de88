use vstd::prelude::*;

use crate::note::{is_note_id, Note};
use crate::scales::diatonic::{
    degree_target, in_scale, lemma_semitones_shape, lemma_step_of_range, pitch_class_interval,
    scale_index, semitones, step_of, Mode,
};

verus! {

/// Step of the major (ionian) scale, built on `scale_root`, on which
/// `chord_root` stands; 0 when `chord_root` is not a note of that scale.
pub open spec fn major_step_of(scale_root: Note, chord_root: Note) -> int {
    let d = (chord_root.pitch_class() - scale_root.pitch_class() + 12) % 12;
    if d == 0 {
        0
    } else if d == 2 {
        1
    } else if d == 4 {
        2
    } else if d == 5 {
        3
    } else if d == 7 {
        4
    } else if d == 9 {
        5
    } else if d == 11 {
        6
    } else {
        0
    }
}

/// Semitones from the chord root, on step `start` of the major scale, to its
/// degree `degree`; a target past the seventh step is taken one octave up.
pub open spec fn ionian_offset(start: int, degree: int) -> int {
    let target = start + degree - 1;
    let major = semitones(Mode::Ionian);
    if target > 6 {
        major[target % 7] - major[start] + 12
    } else {
        major[target] - major[start]
    }
}

/// Whether every degree is a basic interval (1 up to 11) whose note stays
/// within the MIDI range.
pub open spec fn valid_degrees(scale_root: Note, chord_root: Note, degrees: [i8; 3]) -> bool {
    forall|i: int|
        0 <= i < 3 ==> {
            &&& 1 <= #[trigger] degrees[i] < 12
            &&& is_note_id(
                chord_root.id() + ionian_offset(major_step_of(scale_root, chord_root), degrees[i] as int),
            )
        }
}

/// Builds a chord of the major scale on `scale_root`, stacking the basic
/// intervals `degrees` on `chord_root`.
pub fn build(scale_root: Note, chord_root: Note, degrees: [i8; 3]) -> (notes: [Option<Note>; 3])
    requires
        valid_degrees(scale_root, chord_root, degrees),
    ensures
        forall|i: int|
            0 <= i < 3 ==> (#[trigger] notes[i] matches Some(n) && n.id() == chord_root.id()
                + ionian_offset(major_step_of(scale_root, chord_root), degrees[i] as int)),
{
    let semitones_table: [i8; 7] = [0, 2, 4, 5, 7, 9, 11];
    assert(semitones_table@ =~= semitones(Mode::Ionian).map_values(|x: int| x as i8));
    let scale_root_id = (scale_root.to_midi_id() % 12) as i16;
    let mut chord_root_id = (chord_root.to_midi_id() % 12) as i16;

    if scale_root_id > chord_root_id {
        chord_root_id += 12;
    }

    let progression_start: usize = match chord_root_id - scale_root_id {
        0 => 0,
        2 => 1,
        4 => 2,
        5 => 3,
        7 => 4,
        9 => 5,
        11 => 6,
        _ => 0,
    };
    assert(progression_start == major_step_of(scale_root, chord_root));

    let mut notes: [Option<Note>; 3] = [None; 3];

    let mut i: usize = 0;
    while i < 3
        invariant
            i <= 3,
            progression_start == major_step_of(scale_root, chord_root),
            progression_start < 7,
            valid_degrees(scale_root, chord_root, degrees),
            semitones_table@ =~= semitones(Mode::Ionian).map_values(|x: int| x as i8),
            forall|j: int|
                0 <= j < i ==> (#[trigger] notes[j] matches Some(n) && n.id() == chord_root.id()
                    + ionian_offset(progression_start as int, degrees[j] as int)),
        decreases 3 - i,
    {
        let degree = degrees[i];
        assert(1 <= degrees[i as int] < 12);
        let target = progression_start + degree as usize - 1;

        let x: i8 = if target > 6 {
            semitones_table[target % 7] - semitones_table[progression_start] + 12
        } else {
            semitones_table[target] - semitones_table[progression_start]
        };
        assert(x == ionian_offset(progression_start as int, degree as int));

        notes[i] = Some(Note::from_u8(chord_root.to_midi_id() + x as u8));
        i = i + 1;
    }

    notes
}


/// Degree 1 of a chord is its root.
pub proof fn lemma_ionian_root(scale_root: Note, chord_root: Note)
    ensures
        ionian_offset(major_step_of(scale_root, chord_root), 1) == 0,
{
}

/// For a chord root of the major scale, building a chord over the major scale with the basic
/// intervals 1 to 8 gives the same notes as the general scale arithmetic of
/// `scales::diatonic` in the ionian mode.
pub proof fn lemma_ionian_matches_diatonic(scale_root: Note, chord_root: Note, degree: int)
    requires
        1 <= degree <= 8,
        in_scale(scale_root, Mode::Ionian, chord_root),
    ensures
        chord_root.id() + ionian_offset(major_step_of(scale_root, chord_root), degree)
            == degree_target(scale_root, Mode::Ionian, chord_root, degree),
{
    lemma_semitones_shape(Mode::Ionian);
    let d = pitch_class_interval(scale_root, chord_root);
    let index = scale_index(scale_root, Mode::Ionian, chord_root);
    lemma_step_of_range(Mode::Ionian, d, 0);
    let major = semitones(Mode::Ionian);
    assert(major =~= seq![0, 2, 4, 5, 7, 9, 11]);
    assert(index == major_step_of(scale_root, chord_root)) by {
        reveal_with_fuel(step_of, 8);
    }
    let k = index + degree - 1;
    assert(0 <= k <= 13);
    if k > 6 {
        assert(k / 7 == 1);
    } else {
        assert(k / 7 == 0 && k % 7 == k);
    }
}

} // verus!
