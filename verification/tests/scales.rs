use achordion_lib::note::Note;
use achordion_lib::scales::diatonic::{find_index_in_scale, lookup_degree, Mode};

#[test]
fn lookup_root_identical_degree() {
    let note = lookup_degree(Note::C1, Mode::Ionian, Note::C3, 1);
    assert_eq!(note.unwrap(), Note::C3);
}

#[test]
fn lookup_root_identical_degree_octave_above() {
    let note = lookup_degree(Note::C1, Mode::Ionian, Note::C3, 8);
    assert_eq!(note.unwrap(), Note::C4);
}

#[test]
fn lookup_root_identical_degree_octave_below() {
    let note = lookup_degree(Note::C1, Mode::Ionian, Note::C3, -8);
    assert_eq!(note.unwrap(), Note::C2);
}

#[test]
fn lookup_degree_near_above_root() {
    let note = lookup_degree(Note::C1, Mode::Ionian, Note::C3, 2);
    assert_eq!(note.unwrap(), Note::D3);

    let note = lookup_degree(Note::C1, Mode::Ionian, Note::C3, 5);
    assert_eq!(note.unwrap(), Note::G3);
}

#[test]
fn lookup_degree_near_above_root_with_root_above() {
    let note = lookup_degree(Note::C5, Mode::Ionian, Note::C3, 2);
    assert_eq!(note.unwrap(), Note::D3);

    let note = lookup_degree(Note::C5, Mode::Ionian, Note::C3, 5);
    assert_eq!(note.unwrap(), Note::G3);
}

#[test]
fn lookup_degree_far_above_root() {
    let note = lookup_degree(Note::C1, Mode::Ionian, Note::C3, 7 + 2);
    assert_eq!(note.unwrap(), Note::D4);

    let note = lookup_degree(Note::C1, Mode::Ionian, Note::C3, 2 * 7 + 5);
    assert_eq!(note.unwrap(), Note::G5);
}

#[test]
fn lookup_degree_near_below_root() {
    let note = lookup_degree(Note::C1, Mode::Ionian, Note::C3, -2);
    assert_eq!(note.unwrap(), Note::B2);

    let note = lookup_degree(Note::C1, Mode::Ionian, Note::C3, -4);
    assert_eq!(note.unwrap(), Note::G2);
}

#[test]
fn lookup_degree_far_below_root() {
    let note = lookup_degree(Note::C1, Mode::Ionian, Note::C3, -7 - 2);
    assert_eq!(note.unwrap(), Note::B1);

    let note = lookup_degree(Note::C1, Mode::Ionian, Note::C3, 2 * -7 - 4);
    assert_eq!(note.unwrap(), Note::G0);
}

#[test]
fn lookup_non_root_identical_degree() {
    let note = lookup_degree(Note::C1, Mode::Ionian, Note::D3, 1);
    assert_eq!(note.unwrap(), Note::D3);
}

#[test]
fn lookup_non_root_identical_degree_octave_above() {
    let note = lookup_degree(Note::C1, Mode::Ionian, Note::D3, 8);
    assert_eq!(note.unwrap(), Note::D4);
}

#[test]
fn lookup_non_root_identical_degree_octave_below() {
    let note = lookup_degree(Note::C1, Mode::Ionian, Note::D3, -8);
    assert_eq!(note.unwrap(), Note::D2);
}

#[test]
fn lookup_degree_near_above_non_root() {
    let note = lookup_degree(Note::C1, Mode::Ionian, Note::D3, 2);
    assert_eq!(note.unwrap(), Note::E3);

    let note = lookup_degree(Note::C1, Mode::Ionian, Note::D3, 7);
    assert_eq!(note.unwrap(), Note::C4);
}

#[test]
fn lookup_degree_far_above_non_root() {
    let note = lookup_degree(Note::C1, Mode::Ionian, Note::D3, 7 + 2);
    assert_eq!(note.unwrap(), Note::E4);

    let note = lookup_degree(Note::C1, Mode::Ionian, Note::D3, 7 + 7);
    assert_eq!(note.unwrap(), Note::C5);
}

#[test]
fn lookup_degree_near_below_non_root() {
    let note = lookup_degree(Note::C3, Mode::Ionian, Note::D3, -2);
    assert_eq!(note.unwrap(), Note::C3);

    let note = lookup_degree(Note::C3, Mode::Ionian, Note::D3, -7);
    assert_eq!(note.unwrap(), Note::E2);
}

#[test]
fn lookup_degree_far_below_non_root() {
    let note = lookup_degree(Note::C3, Mode::Ionian, Note::D3, -7 - 2);
    assert_eq!(note.unwrap(), Note::C2);

    let note = lookup_degree(Note::C3, Mode::Ionian, Note::D3, -7 - 7);
    assert_eq!(note.unwrap(), Note::E1);
}

#[test]
fn find_index_of_arbitrary_note_in_scale_in_octave() {
    let index = find_index_in_scale(Note::C3, Mode::Ionian, Note::F3);
    assert_eq!(index, 3);
}

#[test]
fn find_index_of_arbitrary_note_in_scale_higher_octave() {
    let index = find_index_in_scale(Note::C3, Mode::Ionian, Note::A4);
    assert_eq!(index, 5);
}

#[test]
fn find_index_of_arbitrary_note_in_scale_lower_octave() {
    let index = find_index_in_scale(Note::C3, Mode::Ionian, Note::A2);
    assert_eq!(index, 5);
}

#[test]
fn find_index_of_unison_in_scale_in_octave() {
    let index = find_index_in_scale(Note::C3, Mode::Ionian, Note::C3);
    assert_eq!(index, 0);
}

#[test]
fn find_index_of_unison_in_scale_higher_octave() {
    let index = find_index_in_scale(Note::C3, Mode::Ionian, Note::C4);
    assert_eq!(index, 0);
}

#[test]
fn find_index_of_unison_in_scale_lower_octave() {
    let index = find_index_in_scale(Note::C3, Mode::Ionian, Note::C2);
    assert_eq!(index, 0);
}

#[test]
fn find_index_of_out_of_scale_note() {
    let index = find_index_in_scale(Note::C3, Mode::Ionian, Note::FSharp3);
    assert_eq!(index, 0);
}

#[test]
fn lookup_zero_degree_gives_nothing() {
    assert_eq!(lookup_degree(Note::C1, Mode::Ionian, Note::C3, 0), None);
}

#[test]
fn lookup_degree_below_range_gives_nothing() {
    assert_eq!(lookup_degree(Note::C1, Mode::Ionian, Note::C0, -20), None);
}

#[test]
fn lookup_degree_above_range_gives_nothing() {
    assert_eq!(lookup_degree(Note::C1, Mode::Ionian, Note::G9, 2), None);
}

#[test]
fn lookup_degree_far_out_of_range_gives_nothing() {
    assert_eq!(lookup_degree(Note::C1, Mode::Ionian, Note::C3, 40_000), None);
    assert_eq!(lookup_degree(Note::C1, Mode::Lydian, Note::C3, i32::MAX), None);
    assert_eq!(lookup_degree(Note::C1, Mode::Locrian, Note::C3, i32::MIN), None);
    assert_eq!(lookup_degree(Note::C1, Mode::Ionian, Note::C3, -40_000), None);
}

#[test]
fn lookup_degree_in_minor_mode() {
    // A aeolian from A3: third is C4, fifth is E4, seventh is G4
    assert_eq!(lookup_degree(Note::A1, Mode::Aeolian, Note::A3, 3), Some(Note::C4));
    assert_eq!(lookup_degree(Note::A1, Mode::Aeolian, Note::A3, 5), Some(Note::E4));
    assert_eq!(lookup_degree(Note::A1, Mode::Aeolian, Note::A3, 7), Some(Note::G4));
}

#[test]
fn lookup_degree_in_harmonic_minor() {
    // C harmonic minor: the seventh is B, the sixth is Ab
    assert_eq!(lookup_degree(Note::C1, Mode::HarmonicMinor, Note::C3, 7), Some(Note::B3));
    assert_eq!(lookup_degree(Note::C1, Mode::HarmonicMinor, Note::C3, 6), Some(Note::Ab3));
    assert_eq!(lookup_degree(Note::C1, Mode::HarmonicMinor, Note::C3, -2), Some(Note::B2));
}

#[test]
fn lookup_octave_in_every_mode() {
    let modes = [
        Mode::Ionian,
        Mode::Dorian,
        Mode::Phrygian,
        Mode::Lydian,
        Mode::Mixolydian,
        Mode::Aeolian,
        Mode::Locrian,
        Mode::HarmonicMinor,
    ];
    for mode in modes.iter() {
        assert_eq!(lookup_degree(Note::D1, *mode, Note::D3, 8), Some(Note::D4));
        assert_eq!(lookup_degree(Note::D1, *mode, Note::D3, -8), Some(Note::D2));
        assert_eq!(lookup_degree(Note::D1, *mode, Note::D3, 1), Some(Note::D3));
    }
}

#[test]
fn find_index_measures_distance_upwards_from_root() {
    // C lies 3 semitones above A, which is no step of A major; A lies 9
    // semitones above C, the sixth step of C major.
    assert_eq!(find_index_in_scale(Note::A3, Mode::Ionian, Note::C3), 0);
    assert_eq!(find_index_in_scale(Note::C3, Mode::Ionian, Note::A3), 5);
}


#[test]
fn lookup_degree_from_note_below_root_pitch_class() {
    // A major counted from E4: the fourth is A4, the third G#4 (Ab4)
    assert_eq!(lookup_degree(Note::A3, Mode::Ionian, Note::E4, 4), Some(Note::A4));
    assert_eq!(lookup_degree(Note::A3, Mode::Ionian, Note::E4, 3), Some(Note::Ab4));
    assert_eq!(lookup_degree(Note::A3, Mode::Ionian, Note::E4, -2), Some(Note::D4));
}

#[test]
fn find_index_of_note_below_root_pitch_class() {
    assert_eq!(find_index_in_scale(Note::A3, Mode::Ionian, Note::E4), 4);
    assert_eq!(find_index_in_scale(Note::C3, Mode::Ionian, Note::F3), 3);
    assert_eq!(find_index_in_scale(Note::C3, Mode::Ionian, Note::FSharp3), 0);
}
