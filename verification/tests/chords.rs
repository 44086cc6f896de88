use achordion_lib::chords::diatonic;
use achordion_lib::chords::ionian;
use achordion_lib::note::Note;
use achordion_lib::scales::diatonic::Mode;

#[test]
fn diatonic_build_major_triad_on_the_first_degree() {
    let notes = diatonic::build(Mode::Ionian, Note::C3, Note::C4, [1, 3, 5]);

    assert_eq!(notes[0], Some(Note::C4));
    assert_eq!(notes[1], Some(Note::E4));
    assert_eq!(notes[2], Some(Note::G4));
}

#[test]
fn diatonic_build_minor_triad_on_the_second_degree() {
    let notes = diatonic::build(Mode::Ionian, Note::C3, Note::D4, [1, 3, 5]);

    assert_eq!(notes[0], Some(Note::D4));
    assert_eq!(notes[1], Some(Note::F4));
    assert_eq!(notes[2], Some(Note::A4));
}

#[test]
fn build_chord_that_overflows_note_range() {
    let notes = diatonic::build(Mode::Ionian, Note::C9, Note::G9, [1, 3, 5]);

    assert_eq!(notes[0], Some(Note::G9));
    assert_eq!(notes[1], None);
    assert_eq!(notes[2], None);
}

#[test]
fn build_chord_with_disabled_degree() {
    let notes = diatonic::build(Mode::Ionian, Note::C3, Note::C4, [1, 0, 5]);

    assert_eq!(notes[0], Some(Note::C4));
    assert_eq!(notes[1], None);
    assert_eq!(notes[2], Some(Note::G4));
}

#[test]
fn build_chord_over_multiple_octaves() {
    let notes = diatonic::build(Mode::Ionian, Note::C3, Note::C4, [1, 7 + 3, 2 * 7 + 5]);

    assert_eq!(notes[0], Some(Note::C4));
    assert_eq!(notes[1], Some(Note::E5));
    assert_eq!(notes[2], Some(Note::G6));
}

#[test]
fn build_chord_with_negative_degrees() {
    let notes = diatonic::build(Mode::Ionian, Note::C3, Note::C4, [1, -1, -2]);

    assert_eq!(notes[0], Some(Note::C4));
    assert_eq!(notes[1], Some(Note::C4));
    assert_eq!(notes[2], Some(Note::B3));

    let notes = diatonic::build(Mode::Ionian, Note::C3, Note::C4, [-7, -8, -9]);

    assert_eq!(notes[0], Some(Note::D3));
    assert_eq!(notes[1], Some(Note::C3));
    assert_eq!(notes[2], Some(Note::B2));
}

#[test]
fn ionian_build_major_triad_on_the_first_degree() {
    let notes = ionian::build(Note::C3, Note::C4, [1, 3, 5]);

    assert_eq!(notes[0], Some(Note::C4));
    assert_eq!(notes[1], Some(Note::E4));
    assert_eq!(notes[2], Some(Note::G4));
}

#[test]
fn ionian_build_minor_triad_on_the_second_degree() {
    let notes = ionian::build(Note::C3, Note::D4, [1, 3, 5]);

    assert_eq!(notes[0], Some(Note::D4));
    assert_eq!(notes[1], Some(Note::F4));
    assert_eq!(notes[2], Some(Note::A4));
}

#[test]
fn ionian_build_seventh_on_the_fifth_degree() {
    // G7 in C major: G, B, D above, and F as the seventh
    let notes = ionian::build(Note::C3, Note::G3, [1, 3, 7]);

    assert_eq!(notes[0], Some(Note::G3));
    assert_eq!(notes[1], Some(Note::B3));
    assert_eq!(notes[2], Some(Note::F4));
}

#[test]
fn ionian_build_with_chord_root_below_scale_root() {
    // The scale root is above the chord root within the octave: B is still
    // the seventh step of C major, so its triad is diminished.
    let notes = ionian::build(Note::C4, Note::B3, [1, 3, 5]);

    assert_eq!(notes[0], Some(Note::B3));
    assert_eq!(notes[1], Some(Note::D4));
    assert_eq!(notes[2], Some(Note::F4));
}

#[test]
fn ionian_agrees_with_diatonic_in_major() {
    for root in [Note::C4, Note::D4, Note::E4, Note::F4, Note::G4, Note::A4, Note::B4].iter() {
        for degree in 1..=8i8 {
            let a = ionian::build(Note::C3, *root, [1, degree, 1]);
            let b = diatonic::build(Mode::Ionian, Note::C3, *root, [1, degree, 1]);
            assert_eq!(a, b);
        }
    }
}
