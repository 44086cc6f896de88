use achordion_lib::note::Note;
use achordion_lib::quantizer::diatonic::{lowest_note, quantize_white_key, white_key_of};
use achordion_lib::scales::diatonic::Mode;

#[test]
fn lowest_note_of_every_pitch_class() {
    assert_eq!(lowest_note(Note::A4), Note::AMinus1);
    assert_eq!(lowest_note(Note::C9), Note::CMinus1);
    assert_eq!(lowest_note(Note::Gb3), Note::GbMinus1);
    assert_eq!(lowest_note(Note::BMinus1), Note::BMinus1);
    assert_eq!(lowest_note(Note::G9), Note::GMinus1);
}

#[test]
fn white_keys_of_notes() {
    assert_eq!(white_key_of(Note::CMinus1), 0);
    assert_eq!(white_key_of(Note::DbMinus1), 0);
    assert_eq!(white_key_of(Note::DMinus1), 1);
    assert_eq!(white_key_of(Note::EMinus1), 2);
    assert_eq!(white_key_of(Note::FMinus1), 3);
    assert_eq!(white_key_of(Note::BMinus1), 6);
    assert_eq!(white_key_of(Note::C0), 7);
    assert_eq!(white_key_of(Note::A0), 12);
    assert_eq!(white_key_of(Note::G9), 74);
}

#[test]
fn quantize_white_keys_in_c_major() {
    for root in [Note::C0, Note::C4].iter() {
        // Octave 1 (voct 2.0) starts at white key 14.
        assert_eq!(quantize_white_key(Mode::Ionian, *root, 14), Some((Note::C1, 1)));
        assert_eq!(quantize_white_key(Mode::Ionian, *root, 15), Some((Note::D1, 2)));
        assert_eq!(quantize_white_key(Mode::Ionian, *root, 16), Some((Note::E1, 3)));
        assert_eq!(quantize_white_key(Mode::Ionian, *root, 17), Some((Note::F1, 4)));
        assert_eq!(quantize_white_key(Mode::Ionian, *root, 18), Some((Note::G1, 5)));
        assert_eq!(quantize_white_key(Mode::Ionian, *root, 19), Some((Note::A1, 6)));
        assert_eq!(quantize_white_key(Mode::Ionian, *root, 20), Some((Note::B1, 7)));
        assert_eq!(quantize_white_key(Mode::Ionian, *root, 21), Some((Note::C2, 1)));
    }
}

#[test]
fn quantize_white_key_below_the_lowest_root() {
    assert_eq!(quantize_white_key(Mode::Ionian, Note::A0, 0), Some((Note::CSharpMinus1, 3)));
}

#[test]
fn quantize_white_key_over_limit_stays_in_scale() {
    // The highest white key a clamped input reaches is that of Gb9.
    assert_eq!(quantize_white_key(Mode::Ionian, Note::B0, white_key_of(Note::Gb9)), Some((Note::FSharp9, 5)));
    assert_eq!(quantize_white_key(Mode::Ionian, Note::B0, 70), Some((Note::CSharp9, 2)));
}

#[test]
fn quantize_white_key_outside_range() {
    assert_eq!(quantize_white_key(Mode::Ionian, Note::C9, 120), None);
}

#[test]
fn root_quantizes_to_itself() {
    for id in 0..=127u8 {
        let root = Note::from_u8(id);
        assert_eq!(
            quantize_white_key(Mode::Dorian, root, white_key_of(root)),
            Some((root, 1))
        );
    }
}
