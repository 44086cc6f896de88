use vstd::prelude::*;

use crate::note::Note;
use crate::scales::diatonic::{
    degree_above_root, in_scale, is_degree_of, lemma_degree_in_scale, lemma_major_scale_steps,
    lemma_modes_of_the_major_scale, lookup_degree, octave_above, octave_below, semitones, Mode,
};

verus! {

/// Number of voices that play the chord.
pub const CHORD_DEGREES: usize = 5;

/// Whether the voice `index` of the chord plays the same note (or the same
/// silence) as one of the voices before it.
pub fn is_already_used_in_chord(chord_notes: [Option<Note>; CHORD_DEGREES], index: usize) -> (r:
    bool)
    requires
        index < CHORD_DEGREES,
    ensures
        r == exists|j: int| 0 <= j < index && #[trigger] chord_notes[j] == chord_notes[index as int],
{
    let mut j: usize = 0;
    while j < index
        invariant
            j <= index < CHORD_DEGREES,
            forall|k: int| 0 <= k < j ==> #[trigger] chord_notes[k] != chord_notes[index as int],
        decreases index - j,
    {
        if chord_notes[j] == chord_notes[index] {
            return true;
        }
        j = j + 1;
    }
    false
}

/// Whether some voice of the chord plays `note`.
pub fn is_already_used_by_chord(chord_notes: [Option<Note>; CHORD_DEGREES], note: Note) -> (r: bool)
    ensures
        r == exists|j: int| 0 <= j < CHORD_DEGREES && #[trigger] chord_notes[j] == Some(note),
{
    let mut j: usize = 0;
    while j < CHORD_DEGREES
        invariant
            j <= CHORD_DEGREES,
            forall|k: int| 0 <= k < j ==> #[trigger] chord_notes[k] != Some(note),
        decreases CHORD_DEGREES - j,
    {
        if let Some(degree) = chord_notes[j] {
            if degree == note {
                return true;
            }
        }
        j = j + 1;
    }
    false
}


/// Notes of the five chord voices: the scale `degrees` of the scale given by
/// `mode` and `scale_root`, counted from `chord_root`. A degree 0 silences
/// its voice, and so does a degree that falls outside the MIDI range.
pub fn chord_notes(mode: Mode, scale_root: Note, chord_root: Note, degrees: [i8; CHORD_DEGREES]) -> (r: [Option<Note>; CHORD_DEGREES])
    ensures
        forall|i: int|
            0 <= i < CHORD_DEGREES ==> is_degree_of(
                scale_root,
                mode,
                chord_root,
                degrees[i] as int,
                #[trigger] r[i],
            ),
{
    let mut notes: [Option<Note>; CHORD_DEGREES] = [None; CHORD_DEGREES];
    let mut i: usize = 0;
    while i < CHORD_DEGREES
        invariant
            i <= CHORD_DEGREES,
            forall|j: int|
                0 <= j < i ==> is_degree_of(
                    scale_root,
                    mode,
                    chord_root,
                    degrees[j] as int,
                    #[trigger] notes[j],
                ),
        decreases CHORD_DEGREES - i,
    {
        notes[i] = lookup_degree(scale_root, mode, chord_root, degrees[i] as i32);
        i = i + 1;
    }
    notes
}

/// What one voice of the chord does.
#[derive(Copy, Clone, PartialEq, Eq, Structural, Debug)]
pub enum Voice {
    /// The voice is disabled.
    Silent,
    /// The voice plays `note`; `doubled` when an earlier voice plays the same
    /// note, so that this one is detuned slightly to keep both audible.
    Playing { note: Note, doubled: bool },
}

/// What the voice `index` of a chord with notes `notes` does.
pub open spec fn voice_of(notes: [Option<Note>; CHORD_DEGREES], index: int) -> Voice {
    match notes[index] {
        None => Voice::Silent,
        Some(note) => Voice::Playing {
            note,
            doubled: exists|j: int| 0 <= j < index && #[trigger] notes[j] == Some(note),
        },
    }
}

/// Assigns the chord notes to the five voices: a voice without a note is
/// disabled, and a voice whose note an earlier voice already plays is marked
/// as doubled.
pub fn assign_voices(notes: [Option<Note>; CHORD_DEGREES]) -> (r: [Voice; CHORD_DEGREES])
    ensures
        forall|i: int| 0 <= i < CHORD_DEGREES ==> #[trigger] r[i] == voice_of(notes, i),
{
    let mut voices: [Voice; CHORD_DEGREES] = [Voice::Silent; CHORD_DEGREES];
    let mut i: usize = 0;
    while i < CHORD_DEGREES
        invariant
            i <= CHORD_DEGREES,
            forall|j: int| 0 <= j < i ==> #[trigger] voices[j] == voice_of(notes, j),
        decreases CHORD_DEGREES - i,
    {
        match notes[i] {
            None => {
                voices[i] = Voice::Silent;
            },
            Some(note) => {
                let doubled = is_already_used_in_chord(notes, i);
                voices[i] = Voice::Playing { note, doubled };
            },
        }
        i = i + 1;
    }
    voices
}

/// Every voice of a chord on a chord root of the scale plays a note of the
/// scale.
pub proof fn lemma_chord_voices_in_scale(
    mode: Mode,
    scale_root: Note,
    chord_root: Note,
    degrees: [i8; CHORD_DEGREES],
    notes: [Option<Note>; CHORD_DEGREES],
    index: int,
)
    requires
        in_scale(scale_root, mode, chord_root),
        0 <= index < CHORD_DEGREES,
        forall|i: int|
            0 <= i < CHORD_DEGREES ==> is_degree_of(
                scale_root,
                mode,
                chord_root,
                degrees[i] as int,
                #[trigger] notes[i],
            ),
    ensures
        notes[index] matches Some(n) ==> in_scale(scale_root, mode, n),
{
    lemma_degree_in_scale(scale_root, mode, chord_root, degrees[index] as int);
    assert(is_degree_of(scale_root, mode, chord_root, degrees[index] as int, notes[index]));
}

/// Number of chord styles.
pub const STYLES: usize = 3;

/// The chords of each style, as scale degrees of their five voices counted
/// from the chord root; 0 silences a voice. Style 0 holds triads, sevenths,
/// ninths and their inversions; style 1 pairs the root with one other degree;
/// style 2 builds chords up degree by degree.
pub open spec fn style_chords(style: int) -> Seq<Seq<int>> {
    if style == 0 {
        seq![
            seq![1, 0, 0, 0, 0],
            seq![1, 3, 5, 0, 0],
            seq![1, 2, 5, 0, 0],
            seq![1, 4, 5, 0, 0],
            seq![1, 10, 5, 7, 0],
            seq![1, 11, 5, 7, 0],
            seq![1, 9, 5, 7, 0],
            seq![1, 10, 7, 9, 0],
            seq![1, 11, 7, 9, 0],
            seq![1, 12, 7, 9, 0],
            seq![1, 3, 5, 7, 9],
            seq![1, 4, 5, 7, 9],
            seq![1, -6, 5, 7, 9],
            seq![1, -6, 6, 7, 9],
            seq![1, 3, -4, 7, 9],
            seq![1, 3, -4, 6, 9],
            seq![1, -6, 5, 7, 2],
            seq![1, -6, 6, 7, 2],
            seq![1, 3, -4, 7, 2],
        ]
    } else if style == 1 {
        seq![
            seq![1, -15, 0, 0, 0],
            seq![1, -14, 0, 0, 0],
            seq![1, -13, 0, 0, 0],
            seq![1, -12, 0, 0, 0],
            seq![1, -11, 0, 0, 0],
            seq![1, -10, 0, 0, 0],
            seq![1, -9, 0, 0, 0],
            seq![1, -8, 0, 0, 0],
            seq![1, -7, 0, 0, 0],
            seq![1, -6, 0, 0, 0],
            seq![1, -5, 0, 0, 0],
            seq![1, -4, 0, 0, 0],
            seq![1, -3, 0, 0, 0],
            seq![1, -2, 0, 0, 0],
            seq![1, 1, 0, 0, 0],
            seq![1, 2, 0, 0, 0],
            seq![1, 3, 0, 0, 0],
            seq![1, 4, 0, 0, 0],
            seq![1, 5, 0, 0, 0],
            seq![1, 6, 0, 0, 0],
            seq![1, 7, 0, 0, 0],
            seq![1, 8, 0, 0, 0],
            seq![1, 9, 0, 0, 0],
            seq![1, 10, 0, 0, 0],
            seq![1, 11, 0, 0, 0],
            seq![1, 12, 0, 0, 0],
            seq![1, 13, 0, 0, 0],
            seq![1, 14, 0, 0, 0],
            seq![1, 15, 0, 0, 0],
        ]
    } else {
        seq![
            seq![1, 0, 0, 0, 0],
            seq![1, 0, 0, 0, 0],
            seq![1, 3, 0, 0, 0],
            seq![1, 3, 5, 0, 0],
            seq![1, 3, 5, 7, 0],
            seq![1, 3, 5, 7, 9],
            seq![1, 3, 5, 7, 9],
            seq![1, 0, 0, 0, 0],
            seq![1, 0, 0, 0, 0],
            seq![1, 2, 0, 0, 0],
            seq![1, 2, 5, 0, 0],
            seq![1, 2, 5, 7, 0],
            seq![1, 2, 5, 7, 10],
            seq![1, 2, 5, 7, 10],
            seq![1, 0, 0, 0, 0],
            seq![1, 0, 0, 0, 0],
            seq![1, 3, 0, 0, 0],
            seq![1, 3, 4, 0, 0],
            seq![1, 3, 4, 7, 0],
            seq![1, 3, 4, 7, 8],
            seq![1, 3, 4, 7, 8],
            seq![1, 0, 0, 0, 0],
            seq![1, 0, 0, 0, 0],
            seq![1, 4, 0, 0, 0],
            seq![1, 4, 5, 0, 0],
            seq![1, 4, 5, 6, 0],
            seq![1, 4, 5, 6, 9],
            seq![1, 4, 5, 6, 9],
        ]
    }
}

/// The chord that `index` selects in style `style`; an index past the last
/// chord selects the last one.
pub open spec fn chord_of(style: int, index: int) -> Seq<int> {
    let chords = style_chords(style);
    chords[if index < chords.len() { index } else { chords.len() - 1 }]
}

/// Number of chords of style `style`.
pub fn chords_in_style(style: usize) -> (r: usize)
    requires
        style < STYLES,
    ensures
        r == style_chords(style as int).len(),
{
    if style == 0 {
        19
    } else if style == 1 {
        29
    } else {
        28
    }
}

/// Degrees of the chord that `index` selects in style `style`; an index past
/// the last chord selects the last one.
pub fn chord_degrees(style: usize, index: usize) -> (r: [i8; CHORD_DEGREES])
    requires
        style < STYLES,
    ensures
        forall|i: int| 0 <= i < 5 ==> r[i] == #[trigger] chord_of(style as int, index as int)[i],
{
    if style == 0 {
        let chords: [[i8; CHORD_DEGREES]; 19] = [
            [1, 0, 0, 0, 0],
            [1, 3, 5, 0, 0],
            [1, 2, 5, 0, 0],
            [1, 4, 5, 0, 0],
            [1, 10, 5, 7, 0],
            [1, 11, 5, 7, 0],
            [1, 9, 5, 7, 0],
            [1, 10, 7, 9, 0],
            [1, 11, 7, 9, 0],
            [1, 12, 7, 9, 0],
            [1, 3, 5, 7, 9],
            [1, 4, 5, 7, 9],
            [1, -6, 5, 7, 9],
            [1, -6, 6, 7, 9],
            [1, 3, -4, 7, 9],
            [1, 3, -4, 6, 9],
            [1, -6, 5, 7, 2],
            [1, -6, 6, 7, 2],
            [1, 3, -4, 7, 2],
        ];
        let i = if index < 19 { index } else { 18 };
        chords[i]
    } else if style == 1 {
        let chords: [[i8; CHORD_DEGREES]; 29] = [
            [1, -15, 0, 0, 0],
            [1, -14, 0, 0, 0],
            [1, -13, 0, 0, 0],
            [1, -12, 0, 0, 0],
            [1, -11, 0, 0, 0],
            [1, -10, 0, 0, 0],
            [1, -9, 0, 0, 0],
            [1, -8, 0, 0, 0],
            [1, -7, 0, 0, 0],
            [1, -6, 0, 0, 0],
            [1, -5, 0, 0, 0],
            [1, -4, 0, 0, 0],
            [1, -3, 0, 0, 0],
            [1, -2, 0, 0, 0],
            [1, 1, 0, 0, 0],
            [1, 2, 0, 0, 0],
            [1, 3, 0, 0, 0],
            [1, 4, 0, 0, 0],
            [1, 5, 0, 0, 0],
            [1, 6, 0, 0, 0],
            [1, 7, 0, 0, 0],
            [1, 8, 0, 0, 0],
            [1, 9, 0, 0, 0],
            [1, 10, 0, 0, 0],
            [1, 11, 0, 0, 0],
            [1, 12, 0, 0, 0],
            [1, 13, 0, 0, 0],
            [1, 14, 0, 0, 0],
            [1, 15, 0, 0, 0],
        ];
        let i = if index < 29 { index } else { 28 };
        chords[i]
    } else {
        let chords: [[i8; CHORD_DEGREES]; 28] = [
            [1, 0, 0, 0, 0],
            [1, 0, 0, 0, 0],
            [1, 3, 0, 0, 0],
            [1, 3, 5, 0, 0],
            [1, 3, 5, 7, 0],
            [1, 3, 5, 7, 9],
            [1, 3, 5, 7, 9],
            [1, 0, 0, 0, 0],
            [1, 0, 0, 0, 0],
            [1, 2, 0, 0, 0],
            [1, 2, 5, 0, 0],
            [1, 2, 5, 7, 0],
            [1, 2, 5, 7, 10],
            [1, 2, 5, 7, 10],
            [1, 0, 0, 0, 0],
            [1, 0, 0, 0, 0],
            [1, 3, 0, 0, 0],
            [1, 3, 4, 0, 0],
            [1, 3, 4, 7, 0],
            [1, 3, 4, 7, 8],
            [1, 3, 4, 7, 8],
            [1, 0, 0, 0, 0],
            [1, 0, 0, 0, 0],
            [1, 4, 0, 0, 0],
            [1, 4, 5, 0, 0],
            [1, 4, 5, 6, 0],
            [1, 4, 5, 6, 9],
            [1, 4, 5, 6, 9],
        ];
        let i = if index < 28 { index } else { 27 };
        chords[i]
    }
}


/// Every chord of every style has the chord root as its first voice, and
/// reaches at most fifteen degrees away from it.
pub proof fn lemma_chords_start_on_root(style: int, index: int)
    requires
        0 <= style < STYLES,
        0 <= index,
    ensures
        chord_of(style, index).len() == CHORD_DEGREES,
        chord_of(style, index)[0] == 1,
        forall|i: int| 0 <= i < 5 ==> -15 <= #[trigger] chord_of(style, index)[i] <= 15,
{
    let chords = style_chords(style);
    let k = if index < chords.len() { index } else { chords.len() - 1 };
    assert(0 <= k < chords.len());
}


/// The chords of style 0: a lone root; the triad and its suspended second
/// and fourth; those three as seventh chords with their middle voice an
/// octave up; the third, fourth and fifth an octave up over a seventh and a
/// ninth; the ninth chord and its suspended fourth; inversions of the ninth
/// chord (third or fifth dropped an octave, fifth or seventh lowered to the
/// sixth); and the first three inversions again with the ninth dropped an
/// octave.
pub proof fn lemma_style_triads_to_ninths()
    ensures
        chord_of(0, 0) == seq![1int, 0, 0, 0, 0],
        chord_of(0, 1) == seq![1int, 3, 5, 0, 0],
        chord_of(0, 2) == seq![1int, 2, 5, 0, 0],
        chord_of(0, 3) == seq![1int, 4, 5, 0, 0],
        chord_of(0, 4) == chord_of(0, 1).update(1, octave_above(3)).update(3, 7),
        chord_of(0, 5) == chord_of(0, 3).update(1, octave_above(4)).update(3, 7),
        chord_of(0, 6) == chord_of(0, 2).update(1, octave_above(2)).update(3, 7),
        forall|t: int|
            0 <= t < 3 ==> #[trigger] chord_of(0, 7 + t) == seq![1int, octave_above(3 + t), 7, 9, 0],
        chord_of(0, 10) == seq![1int, 3, 5, 7, 9],
        chord_of(0, 11) == seq![1int, 4, 5, 7, 9],
        chord_of(0, 12) == chord_of(0, 10).update(1, octave_below(3)),
        chord_of(0, 13) == chord_of(0, 12).update(2, 6),
        chord_of(0, 14) == chord_of(0, 10).update(2, octave_below(5)),
        chord_of(0, 15) == chord_of(0, 14).update(3, 6),
        forall|t: int|
            0 <= t < 3 ==> #[trigger] chord_of(0, 16 + t) == chord_of(0, 12 + t).update(
                4,
                octave_below(9),
            ),
{
    assert(chord_of(0, 4) =~= chord_of(0, 1).update(1, octave_above(3)).update(3, 7));
    assert(chord_of(0, 5) =~= chord_of(0, 3).update(1, octave_above(4)).update(3, 7));
    assert(chord_of(0, 6) =~= chord_of(0, 2).update(1, octave_above(2)).update(3, 7));
    assert forall|t: int| 0 <= t < 3 implies #[trigger] chord_of(0, 7 + t) == seq![
        1int,
        octave_above(3 + t),
        7,
        9,
        0,
    ] by {
        if t == 0 {
            assert(chord_of(0, 7) =~= seq![1int, octave_above(3), 7, 9, 0]);
        } else if t == 1 {
            assert(chord_of(0, 8) =~= seq![1int, octave_above(4), 7, 9, 0]);
        } else {
            assert(chord_of(0, 9) =~= seq![1int, octave_above(5), 7, 9, 0]);
        }
    }
    assert(chord_of(0, 12) =~= chord_of(0, 10).update(1, octave_below(3)));
    assert(chord_of(0, 13) =~= chord_of(0, 12).update(2, 6));
    assert(chord_of(0, 14) =~= chord_of(0, 10).update(2, octave_below(5)));
    assert(chord_of(0, 15) =~= chord_of(0, 14).update(3, 6));
    assert forall|t: int| 0 <= t < 3 implies #[trigger] chord_of(0, 16 + t) == chord_of(
        0,
        12 + t,
    ).update(4, octave_below(9)) by {
        if t == 0 {
            assert(chord_of(0, 16) =~= chord_of(0, 12).update(4, octave_below(9)));
        } else if t == 1 {
            assert(chord_of(0, 17) =~= chord_of(0, 13).update(4, octave_below(9)));
        } else {
            assert(chord_of(0, 18) =~= chord_of(0, 14).update(4, octave_below(9)));
        }
    }
}

/// The chords of style 1 pair the root with one other degree, which runs
/// through every interval from two octaves down to two octaves up in order
/// (degree 0 and -1 would repeat the root and are left out).
pub proof fn lemma_style_intervals(i: int)
    requires
        0 <= i < 29,
    ensures
        chord_of(1, i) == seq![1int, if i < 14 { i - 15 } else { i - 13 }, 0, 0, 0],
{
    let chords = style_chords(1);
    assert(chords.len() == 29);
    assert(chord_of(1, i) == chords[i]);
    assert(chords[i] =~= seq![1int, if i < 14 { i - 15 } else { i - 13 }, 0, 0, 0]) by {
        if i < 7 {
            if i == 0 {} else if i == 1 {} else if i == 2 {} else if i == 3 {} else if i == 4 {} else if i == 5 {} else {}
        } else if i < 14 {
            if i == 7 {} else if i == 8 {} else if i == 9 {} else if i == 10 {} else if i == 11 {} else if i == 12 {} else {}
        } else if i < 21 {
            if i == 14 {} else if i == 15 {} else if i == 16 {} else if i == 17 {} else if i == 18 {} else if i == 19 {} else {}
        } else {
            if i == 21 {} else if i == 22 {} else if i == 23 {} else if i == 24 {} else if i == 25 {} else if i == 26 {} else if i == 27 {} else {}
        }
    }
}

/// The degrees that each group of seven chords of style 2 stacks on the
/// root: a seventh-and-ninth chord, the same on the suspended second, on a
/// third and fourth, and on a suspended fourth with the sixth.
pub open spec fn stacked_degrees(group: int) -> Seq<int> {
    if group == 0 {
        seq![3, 5, 7, 9]
    } else if group == 1 {
        seq![2, 5, 7, 10]
    } else if group == 2 {
        seq![3, 4, 7, 8]
    } else {
        seq![4, 5, 6, 9]
    }
}

/// The chords of style 2 build a chord up one voice at a time: in each group
/// of seven, the first two positions play the root alone, and each next
/// position adds the next degree of the group, up to all five voices at the
/// last two positions.
pub proof fn lemma_style_stacked(group: int, j: int, v: int)
    requires
        0 <= group < 4,
        0 <= j < 7,
        0 <= v < 5,
    ensures
        ({
            let voices = if j < 2 { 1 } else if j < 6 { j } else { 5 };
            chord_of(2, 7 * group + j)[v] == if v == 0 {
                1
            } else if v < voices {
                stacked_degrees(group)[v - 1]
            } else {
                0
            }
        }),
{
    let chords = style_chords(2);
    assert(chords.len() == 28);
    let i = 7 * group + j;
    assert(0 <= i < 28);
    assert(chord_of(2, i) == chords[i]);
    if group == 0 {
        if j == 0 {} else if j == 1 {} else if j == 2 {} else if j == 3 {} else if j == 4 {} else if j == 5 {} else {}
    } else if group == 1 {
        if j == 0 {} else if j == 1 {} else if j == 2 {} else if j == 3 {} else if j == 4 {} else if j == 5 {} else {}
    } else if group == 2 {
        if j == 0 {} else if j == 1 {} else if j == 2 {} else if j == 3 {} else if j == 4 {} else if j == 5 {} else {}
    } else {
        if j == 0 {} else if j == 1 {} else if j == 2 {} else if j == 3 {} else if j == 4 {} else if j == 5 {} else {}
    }
}

/// Sum of the semitones of a mode's steps above its root: the higher, the
/// brighter the mode sounds.
pub open spec fn brightness(mode: Mode) -> int {
    let s = semitones(mode);
    s[0] + s[1] + s[2] + s[3] + s[4] + s[5] + s[6]
}

/// Ordered by brightness, the mode knob goes from the brightest mode to the
/// darkest, each position strictly darker than the one before, and ends on
/// the harmonic minor either way.
pub proof fn lemma_modes_by_brightness(p: int)
    requires
        0 <= p < 6,
    ensures
        brightness(mode_at(p, true)) > brightness(mode_at(p + 1, true)),
        mode_at(7, true) == Mode::HarmonicMinor,
        mode_at(7, false) == Mode::HarmonicMinor,
{
    if p == 0 {} else if p == 1 {} else if p == 2 {} else if p == 3 {} else if p == 4 {} else {}
}

/// Number of positions the scale mode knob is divided into, one per mode.
pub const MODE_POSITIONS: usize = 8;

/// The mode at position `position` (0 to 7) of the scale mode knob: in
/// declaration order, or, when `by_brightness`, from the brightest mode
/// (Lydian) to the darkest (Locrian), harmonic minor last either way.
pub open spec fn mode_at(position: int, by_brightness: bool) -> Mode {
    if by_brightness {
        if position == 0 {
            Mode::Lydian
        } else if position == 1 {
            Mode::Ionian
        } else if position == 2 {
            Mode::Mixolydian
        } else if position == 3 {
            Mode::Dorian
        } else if position == 4 {
            Mode::Aeolian
        } else if position == 5 {
            Mode::Phrygian
        } else if position == 6 {
            Mode::Locrian
        } else {
            Mode::HarmonicMinor
        }
    } else {
        if position == 0 {
            Mode::Ionian
        } else if position == 1 {
            Mode::Dorian
        } else if position == 2 {
            Mode::Phrygian
        } else if position == 3 {
            Mode::Lydian
        } else if position == 4 {
            Mode::Mixolydian
        } else if position == 5 {
            Mode::Aeolian
        } else if position == 6 {
            Mode::Locrian
        } else {
            Mode::HarmonicMinor
        }
    }
}

/// The mode selected at position `position` of the scale mode knob, see
/// `mode_at`; positions past the last select the last mode.
pub fn scale_mode_at(position: usize, modes_ordered_by_brightness: bool) -> (r: Mode)
    ensures
        r == mode_at(position as int, modes_ordered_by_brightness),
{
    if position < 1 {
        if modes_ordered_by_brightness {
            Mode::Lydian
        } else {
            Mode::Ionian
        }
    } else if position < 2 {
        if modes_ordered_by_brightness {
            Mode::Ionian
        } else {
            Mode::Dorian
        }
    } else if position < 3 {
        if modes_ordered_by_brightness {
            Mode::Mixolydian
        } else {
            Mode::Phrygian
        }
    } else if position < 4 {
        if modes_ordered_by_brightness {
            Mode::Dorian
        } else {
            Mode::Lydian
        }
    } else if position < 5 {
        if modes_ordered_by_brightness {
            Mode::Aeolian
        } else {
            Mode::Mixolydian
        }
    } else if position < 6 {
        if modes_ordered_by_brightness {
            Mode::Phrygian
        } else {
            Mode::Aeolian
        }
    } else if position < 7 {
        Mode::Locrian
    } else {
        Mode::HarmonicMinor
    }
}

/// Either ordering of the scale mode knob offers every mode at exactly one
/// of its eight positions.
pub proof fn lemma_every_mode_once(by_brightness: bool, mode: Mode)
    ensures
        exists|p: int| 0 <= p < 8 && #[trigger] mode_at(p, by_brightness) == mode,
        forall|p: int, q: int|
            0 <= p < q < 8 ==> #[trigger] mode_at(p, by_brightness) != #[trigger] mode_at(
                q,
                by_brightness,
            ),
{
    let witness = if by_brightness {
        match mode {
            Mode::Lydian => 0int,
            Mode::Ionian => 1,
            Mode::Mixolydian => 2,
            Mode::Dorian => 3,
            Mode::Aeolian => 4,
            Mode::Phrygian => 5,
            Mode::Locrian => 6,
            Mode::HarmonicMinor => 7,
        }
    } else {
        match mode {
            Mode::Ionian => 0int,
            Mode::Dorian => 1,
            Mode::Phrygian => 2,
            Mode::Lydian => 3,
            Mode::Mixolydian => 4,
            Mode::Aeolian => 5,
            Mode::Locrian => 6,
            Mode::HarmonicMinor => 7,
        }
    };
    assert(mode_at(witness, by_brightness) == mode);
}

/// In declaration order, the mode knob walks the modes of the major scale
/// from its first degree to its seventh: the mode at position `p` (0 to 6)
/// has the steps of the major scale started on its degree `p + 1`.
pub proof fn lemma_modes_in_degree_order(p: int, root: Note, d: int)
    requires
        0 <= p < 7,
        1 <= d <= 7,
    ensures
        degree_above_root(mode_at(p, false), root, d) == degree_above_root(
            Mode::Ionian,
            root,
            d + p,
        ) - degree_above_root(Mode::Ionian, root, 1 + p),
{
    lemma_major_scale_steps(root);
    lemma_modes_of_the_major_scale(root, d);
}

} // verus!
