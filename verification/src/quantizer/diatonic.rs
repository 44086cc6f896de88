use vstd::prelude::*;

use crate::note::{is_note_id, Note};
use crate::scales::diatonic::{
    degree_target, in_scale, in_scale_id, lemma_degree_in_scale, lemma_semitones_shape, lookup_degree, semitones,
    Mode,
};

verus! {

/// Scale degree of a quantized note, 1 for the scale's root up to 7.
pub type Degree = u8;

/// The lowest note of the MIDI range that shares the pitch class of `note`,
/// i.e. its instance in octave -1.
pub fn lowest_note(note: Note) -> (r: Note)
    ensures
        r.id() == note.pitch_class(),
        r.pitch_class() == note.pitch_class(),
{
    Note::from_u8(note.to_midi_id() % 12)
}

/// White key, counted from C within the octave, that each of the twelve
/// semitones of the octave falls on: a black key falls on the white key
/// below it.
pub open spec fn white_key_in_octave(semitone: int) -> int {
    if semitone < 2 {
        0
    } else if semitone < 4 {
        1
    } else if semitone < 5 {
        2
    } else if semitone < 7 {
        3
    } else if semitone < 9 {
        4
    } else if semitone < 11 {
        5
    } else {
        6
    }
}

/// Index of the white key that `note` falls on, counting the white keys of
/// the keyboard from C-1 upwards.
pub open spec fn note_white_key(note: Note) -> int {
    7 * (note.id() / 12) + white_key_in_octave(note.id() % 12)
}

/// Index of the white key that `note` falls on, see `note_white_key`.
pub fn white_key_of(note: Note) -> (r: usize)
    ensures
        r == note_white_key(note),
        r <= 74,
{
    let id = note.to_midi_id();
    let semitone = id % 12;
    let in_octave: usize = if semitone < 2 {
        0
    } else if semitone < 4 {
        1
    } else if semitone < 5 {
        2
    } else if semitone < 7 {
        3
    } else if semitone < 9 {
        4
    } else if semitone < 11 {
        5
    } else {
        6
    };
    7 * (id / 12) as usize + in_octave
}

/// Scale degree counted from the root reached by moving `white_diff` white
/// keys away from it: one more than the distance for a move upwards, one less
/// for a move downwards or none.
pub open spec fn white_interval(white_diff: int) -> int {
    if white_diff > 0 {
        white_diff + 1
    } else {
        white_diff - 1
    }
}

/// Quantizes the white key `white_key` of a keyboard input to the scale given
/// by `mode` and `root`: the white key distance from the root's white key is
/// read as a scale degree. Gives the note of that degree together with the
/// degree within the octave, or `None` when the note would fall outside the
/// MIDI range.
pub fn quantize_white_key(mode: Mode, root: Note, white_key: usize) -> (r: Option<(Note, Degree)>)
    requires
        white_key <= 127,
    ensures
        ({
            let white_diff = white_key - note_white_key(root);
            let target = degree_target(root, mode, root, white_interval(white_diff));
            &&& (r is Some <==> is_note_id(target))
            &&& (r matches Some((note, degree)) ==> note.id() == target && degree == white_diff % 7 + 1)
        }),
{
    let root_white = white_key_of(root);
    let white_diff = white_key as i32 - root_white as i32;
    let interval = if white_diff > 0 {
        white_diff + 1
    } else {
        white_diff - 1
    };

    let degree: u8 = if white_diff >= 0 {
        (white_diff % 7) as u8 + 1
    } else {
        let rest = (-white_diff) % 7;
        if rest == 0 {
            1
        } else {
            (7 - rest) as u8 + 1
        }
    };

    match lookup_degree(root, mode, root, interval) {
        Some(note) => Some((note, degree)),
        None => None,
    }
}


/// Quantizing the root's own white key gives the root, as degree 1.
pub proof fn lemma_root_quantizes_to_itself(mode: Mode, root: Note)
    ensures
        degree_target(root, mode, root, white_interval(note_white_key(root) - note_white_key(root)))
            == root.id(),
        (note_white_key(root) - note_white_key(root)) % 7 + 1 == 1,
{
}

/// Whatever white key is played, the quantized note belongs to the scale.
pub proof fn lemma_quantized_in_scale(mode: Mode, root: Note, white_key: int)
    ensures
        in_scale_id(
            root,
            mode,
            degree_target(root, mode, root, white_interval(white_key - note_white_key(root))),
        ),
{
    lemma_semitones_shape(mode);
    assert(semitones(mode)[0] == (root.id() - root.id()) % 12);
    assert(in_scale(root, mode, root));
    lemma_degree_in_scale(root, mode, root, white_interval(white_key - note_white_key(root)));
}

/// Whether the pitch class `pc` is a black key of the keyboard: C#, D#, F#,
/// G# or A#.
pub open spec fn is_black_key(pc: int) -> bool {
    pc == 1 || pc == 3 || pc == 6 || pc == 8 || pc == 10
}

/// The white keys are counted from C-1 upwards, and a black key falls on the
/// white key below it: going up a semitone keeps the white key when the new
/// note is a black key, and moves on to the next white key otherwise.
pub proof fn lemma_white_keys_step(lower: Note, upper: Note)
    requires
        upper.id() == lower.id() + 1,
    ensures
        note_white_key(upper) == note_white_key(lower) + if is_black_key(upper.pitch_class()) {
            0int
        } else {
            1int
        },
{
    let a = lower.id();
    let b = upper.id();
    lower.lemma_id_in_range();
    if a % 12 == 11 {
        assert(b % 12 == 0 && b / 12 == a / 12 + 1);
    } else {
        assert(b % 12 == a % 12 + 1 && b / 12 == a / 12);
    }
}

/// The lowest note, C-1, lies on the first white key.
pub proof fn lemma_first_white_key()
    ensures
        note_white_key(Note::CMinus1) == 0,
{
}

} // verus!
