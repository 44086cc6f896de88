use vstd::prelude::*;

use crate::note::Note;
use crate::scales::diatonic::{
    in_scale, is_degree_of, lemma_degree_in_scale, lemma_unison, lookup_degree, Mode,
};

verus! {

/// Number of notes in a chord.
pub const CHORD_NOTES: usize = 3;

/// Builds a chord of the scale given by `mode` and `scale_root`, stacking the
/// scale `degrees` on `chord_root`. A degree 0 leaves its voice silent, and so
/// does a degree that falls outside the MIDI range.
pub fn build(mode: Mode, scale_root: Note, chord_root: Note, degrees: [i8; 3]) -> (notes: [Option<
    Note,
>; 3])
    ensures
        forall|i: int|
            0 <= i < 3 ==> is_degree_of(
                scale_root,
                mode,
                chord_root,
                degrees[i] as int,
                #[trigger] notes[i],
            ),
{
    let mut notes: [Option<Note>; 3] = [None; 3];

    let mut i: usize = 0;
    while i < CHORD_NOTES
        invariant
            i <= CHORD_NOTES,
            forall|j: int|
                0 <= j < i ==> is_degree_of(
                    scale_root,
                    mode,
                    chord_root,
                    degrees[j] as int,
                    #[trigger] notes[j],
                ),
        decreases CHORD_NOTES - i,
    {
        let degree = degrees[i];
        if degree == 0 {
            notes[i] = None;
        } else {
            notes[i] = lookup_degree(scale_root, mode, chord_root, degree as i32);
        }
        i = i + 1;
    }

    notes
}


/// A voice of degree 1 plays the chord root itself, and a voice of degree 0
/// stays silent.
pub proof fn lemma_chord_root_voice(
    mode: Mode,
    scale_root: Note,
    chord_root: Note,
    degree: int,
    voice: Option<Note>,
)
    requires
        is_degree_of(scale_root, mode, chord_root, degree, voice),
    ensures
        degree == 1 ==> (voice matches Some(n) && n.id() == chord_root.id()),
        degree == 0 ==> voice is None,
{
    lemma_unison(scale_root, mode, chord_root);
    chord_root.lemma_id_in_range();
}

/// A chord built on a chord root of the scale plays only notes of the scale.
pub proof fn lemma_chord_in_scale(
    mode: Mode,
    scale_root: Note,
    chord_root: Note,
    degree: int,
    voice: Option<Note>,
)
    requires
        in_scale(scale_root, mode, chord_root),
        is_degree_of(scale_root, mode, chord_root, degree, voice),
    ensures
        voice matches Some(n) ==> in_scale(scale_root, mode, n),
{
    lemma_degree_in_scale(scale_root, mode, chord_root, degree);
}

} // verus!
