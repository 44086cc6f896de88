use achordion_lib::instrument::{
    assign_voices, chord_degrees, chord_notes, chords_in_style, is_already_used_by_chord,
    is_already_used_in_chord, scale_mode_at, Voice,
};
use achordion_lib::note::Note;
use achordion_lib::scales::diatonic::Mode;

#[test]
fn repeated_voice_is_detected() {
    let chord = [Some(Note::C4), Some(Note::E4), Some(Note::C4), None, None];
    assert!(!is_already_used_in_chord(chord, 0));
    assert!(!is_already_used_in_chord(chord, 1));
    assert!(is_already_used_in_chord(chord, 2));
    assert!(!is_already_used_in_chord(chord, 3));
    assert!(is_already_used_in_chord(chord, 4));
}

#[test]
fn note_used_by_chord() {
    let chord = [Some(Note::C4), Some(Note::E4), None, None, Some(Note::G4)];
    assert!(is_already_used_by_chord(chord, Note::G4));
    assert!(is_already_used_by_chord(chord, Note::C4));
    assert!(!is_already_used_by_chord(chord, Note::G3));
    assert!(!is_already_used_by_chord([None; 5], Note::C4));
}

#[test]
fn chord_degrees_of_styles() {
    assert_eq!(chord_degrees(0, 0), [1, 0, 0, 0, 0]);
    assert_eq!(chord_degrees(0, 1), [1, 3, 5, 0, 0]);
    assert_eq!(chord_degrees(0, 18), [1, 3, -4, 7, 2]);
    assert_eq!(chord_degrees(0, 100), [1, 3, -4, 7, 2]);
    assert_eq!(chord_degrees(1, 0), [1, -15, 0, 0, 0]);
    assert_eq!(chord_degrees(1, 28), [1, 15, 0, 0, 0]);
    assert_eq!(chord_degrees(2, 5), [1, 3, 5, 7, 9]);
    assert_eq!(chord_degrees(2, 27), [1, 4, 5, 6, 9]);
}

#[test]
fn every_chord_starts_on_its_root() {
    for style in 0..3 {
        for index in 0..40 {
            assert_eq!(chord_degrees(style, index)[0], 1);
        }
    }
}

#[test]
fn scale_modes_by_knob_position() {
    assert_eq!(scale_mode_at(0, false), Mode::Ionian);
    assert_eq!(scale_mode_at(3, false), Mode::Lydian);
    assert_eq!(scale_mode_at(0, true), Mode::Lydian);
    assert_eq!(scale_mode_at(1, true), Mode::Ionian);
    assert_eq!(scale_mode_at(6, true), Mode::Locrian);
    assert_eq!(scale_mode_at(7, false), Mode::HarmonicMinor);
    assert_eq!(scale_mode_at(100, true), Mode::HarmonicMinor);
}

#[test]
fn chord_notes_of_a_major_ninth() {
    let notes = chord_notes(Mode::Ionian, Note::C1, Note::C3, [1, 3, 5, 7, 9]);
    assert_eq!(
        notes,
        [Some(Note::C3), Some(Note::E3), Some(Note::G3), Some(Note::B3), Some(Note::D4)]
    );
}

#[test]
fn chord_notes_on_root_below_scale_root_stay_in_scale() {
    // A major, chord on E4: E4, G#4 (Ab4), B4
    let notes = chord_notes(Mode::Ionian, Note::A3, Note::E4, [1, 3, 5, 0, 0]);
    assert_eq!(notes, [Some(Note::E4), Some(Note::Ab4), Some(Note::B4), None, None]);
}

#[test]
fn assign_voices_marks_doubled_notes() {
    let voices = assign_voices([Some(Note::C3), None, Some(Note::C3), Some(Note::E3), None]);
    assert_eq!(
        voices,
        [
            Voice::Playing { note: Note::C3, doubled: false },
            Voice::Silent,
            Voice::Playing { note: Note::C3, doubled: true },
            Voice::Playing { note: Note::E3, doubled: false },
            Voice::Silent,
        ]
    );
}

#[test]
fn number_of_chords_in_each_style() {
    assert_eq!(chords_in_style(0), 19);
    assert_eq!(chords_in_style(1), 29);
    assert_eq!(chords_in_style(2), 28);
}
