use core::convert::TryFrom;

use achordion_lib::midi::channel::Channel;
use achordion_lib::midi::control::{ControlFunction, ControlValue};
use achordion_lib::midi::controller::Controller;
use achordion_lib::midi::message::Message as ChannelMessage;
use achordion_lib::midi::parser::{is_status_byte, split_message_and_channel, Parser};
use achordion_lib::midi::velocity::Velocity;
use achordion_lib::midi::{Instrument, Message, NoteBuffer, MAX_NOTES};
use achordion_lib::note::Note;


#[test]
fn parse_status_byte() {
    assert!(is_status_byte(0x80u8));
    assert!(is_status_byte(0x94u8));
    assert!(!is_status_byte(0x00u8));
    assert!(!is_status_byte(0x78u8));
}

#[test]
fn should_split_message_and_channel() {
    let (message, channel) = split_message_and_channel(0x91u8);
    assert_eq!(message, 0x90u8);
    assert_eq!(channel, Channel::Channel2);
}

#[test]
fn parser_parse_note_on() {
    let mut parser = Parser::new();
    assert!(parser.parse_byte(0x92).is_none());
    assert!(parser.parse_byte(0x45).is_none());
    assert_eq!(
        parser.parse_byte(0x7f).unwrap(),
        ChannelMessage::NoteOn(Channel::Channel3, Note::A4, Velocity::from_u8(127))
    );
}

#[test]
fn split_stream_of_note_on() {
    let mut parser = Parser::new();
    assert!(parser.parse_byte(0x92).is_none());
    assert!(parser.parse_byte(0x45).is_none());
    assert_eq!(
        parser.parse_byte(0x7f).unwrap(),
        ChannelMessage::NoteOn(Channel::Channel3, Note::A4, Velocity::from_u8(127))
    );
    assert!(parser.parse_byte(0x47).is_none());
    assert_eq!(
        parser.parse_byte(0x7f).unwrap(),
        ChannelMessage::NoteOn(Channel::Channel3, Note::B4, Velocity::from_u8(127))
    );
}

#[test]
fn parse_note_off() {
    let mut parser = Parser::new();
    assert!(parser.parse_byte(0x82).is_none());
    assert!(parser.parse_byte(0x45).is_none());
    assert_eq!(
        parser.parse_byte(0x00).unwrap(),
        ChannelMessage::NoteOff(Channel::Channel3, Note::A4)
    );
}

#[test]
fn incomplete_message() {
    let mut parser = Parser::new();
    assert!(parser.parse_byte(0x92).is_none()); // note on
    assert!(parser.parse_byte(0x82).is_none()); // note off
    assert!(parser.parse_byte(0x45).is_none());
    assert_eq!(
        parser.parse_byte(0x00).unwrap(),
        ChannelMessage::NoteOff(Channel::Channel3, Note::A4)
    );
}

#[test]
fn unknown_status_is_ignored_with_its_data() {
    let mut parser = Parser::new();
    assert!(parser.parse_byte(0xb0).is_none()); // control change
    assert!(parser.parse_byte(0x10).is_none());
    assert!(parser.parse_byte(0x7f).is_none());
    assert!(parser.parse_byte(0x91).is_none());
    assert!(parser.parse_byte(0x3c).is_none());
    assert_eq!(
        parser.parse_byte(0x40).unwrap(),
        ChannelMessage::NoteOn(Channel::Channel2, Note::C4, Velocity::from_u8(0x40))
    );
}

#[test]
fn data_bytes_before_any_status_are_ignored() {
    let mut parser = Parser::new();
    assert!(parser.parse_byte(0x45).is_none());
    assert!(parser.parse_byte(0x7f).is_none());
}

#[test]
fn channel_from_number() {
    assert_eq!(Channel::from_u8(0), Channel::Channel1);
    assert_eq!(Channel::from_u8(15), Channel::Channel16);
    assert_eq!(Channel::HIGHEST_CHANNEL, Channel::Channel16);
}

#[test]
fn control_function_and_value() {
    assert_eq!(ControlFunction::from_u8(0), ControlFunction::CC0);
    assert_eq!(ControlFunction::from_u8(74), ControlFunction::CC74);
    assert_eq!(ControlFunction::from_u8(127), ControlFunction::HIGHEST_CONTROL_FUNCTION);
    assert_eq!(u8::from(ControlValue::from_u8(100)), 100);
    assert_eq!(u8::from(Velocity::from_u8(64)), 64);
}

#[test]
fn convert_usbd_velocity_to_internal() {
    let note: Velocity = usbd_midi::data::byte::u7::U7::try_from(20).ok().unwrap().into();
    assert_eq!(note, Velocity::from_u8(20));
}

#[test]
fn initialize_buffer() {
    let _buffer = NoteBuffer::new();
}

#[test]
fn push_to_buffer() {
    let mut buffer = NoteBuffer::new();
    buffer.push(Note::A4);
    assert_eq!(buffer.last(), Some(Note::A4));
}

#[test]
fn push_to_full_buffer() {
    let mut buffer = NoteBuffer::new();

    buffer.push(Note::A4);
    buffer.push(Note::B4);
    buffer.push(Note::C4);
    buffer.push(Note::D4);
    buffer.push(Note::E4);
    buffer.push(Note::F4);
    buffer.push(Note::G4);
    buffer.push(Note::A5);
    // This one is over limit and should cause the first one to be dropped
    buffer.push(Note::B5);

    assert_eq!(buffer.last(), Some(Note::B5));

    buffer.remove(Note::B5);
    assert_eq!(buffer.last(), Some(Note::A5));

    buffer.remove(Note::A5);
    assert_eq!(buffer.last(), Some(Note::G4));

    buffer.remove(Note::G4);
    assert_eq!(buffer.last(), Some(Note::F4));

    buffer.remove(Note::F4);
    assert_eq!(buffer.last(), Some(Note::E4));

    buffer.remove(Note::E4);
    assert_eq!(buffer.last(), Some(Note::D4));

    buffer.remove(Note::D4);
    assert_eq!(buffer.last(), Some(Note::C4));

    buffer.remove(Note::C4);
    assert_eq!(buffer.last(), Some(Note::B4));

    buffer.remove(Note::B4);
    assert_eq!(buffer.last(), None);

    // A4 was dropped implicitly
}

#[test]
fn remove_from_buffer() {
    let mut buffer = NoteBuffer::new();
    buffer.push(Note::A4);

    buffer.remove(Note::A4);
    assert_eq!(buffer.last(), None);
}

#[test]
fn remove_from_empty_buffer() {
    let mut buffer = NoteBuffer::new();
    buffer.remove(Note::A4);
    assert_eq!(buffer.len(), 0);
}

#[test]
fn remove_every_occurrence() {
    let mut buffer = NoteBuffer::new();
    buffer.push(Note::A4);
    buffer.push(Note::C4);
    buffer.push(Note::A4);
    buffer.remove(Note::A4);
    assert_eq!(buffer.len(), 1);
    assert_eq!(buffer.last(), Some(Note::C4));
}

#[test]
fn last_empty_buffer_item() {
    let buffer = NoteBuffer::new();
    assert_eq!(buffer.last(), None);
}

#[test]
fn initialize_instrument() {
    let _instrument = Instrument::new();
}

#[test]
fn reconcile_note_on_message() {
    let mut instrument = Instrument::new();

    let state = instrument.reconcile(Message::NoteOn(Note::A4));

    assert_eq!(state, Some(Note::A4));
}

#[test]
fn reconcile_note_off_message() {
    let mut instrument = Instrument::new();

    instrument.reconcile(Message::NoteOn(Note::A4));
    let state = instrument.reconcile(Message::NoteOff(Note::A4));

    assert_eq!(state, None);
}

#[test]
fn reconcile_multiple_note_on_messages() {
    let mut instrument = Instrument::new();

    let state = instrument.reconcile(Message::NoteOn(Note::A3));
    assert_eq!(state, Some(Note::A3));

    let state = instrument.reconcile(Message::NoteOn(Note::A4));
    assert_eq!(state, Some(Note::A4));

    let state = instrument.reconcile(Message::NoteOff(Note::A4));
    assert_eq!(state, Some(Note::A3));

    let state = instrument.reconcile(Message::NoteOff(Note::A3));
    assert_eq!(state, None);
}

#[test]
fn reconcile_over_limit_note_on_messages() {
    let mut instrument = Instrument::new();

    let notes = [
        Note::A1,
        Note::B1,
        Note::C1,
        Note::D1,
        Note::E1,
        Note::F1,
        Note::G1,
        Note::A2,
        // This one is over limit and should cause the first one to be dropped
        Note::B2,
    ];

    for note in notes.iter() {
        instrument.reconcile(Message::NoteOn(*note));
    }

    for i in 0..MAX_NOTES - 1 {
        let i = notes.len() - 1 - i;
        let state = instrument.reconcile(Message::NoteOff(notes[i]));
        assert_eq!(state, Some(notes[i - 1]));
    }

    let state = instrument.reconcile(Message::NoteOff(notes[1]));
    assert_eq!(state, None);
}

#[test]
fn pressing_a_held_note_again_moves_it_to_the_top() {
    let mut instrument = Instrument::new();

    instrument.reconcile(Message::NoteOn(Note::C3));
    instrument.reconcile(Message::NoteOn(Note::E3));
    assert_eq!(instrument.reconcile(Message::NoteOn(Note::C3)), Some(Note::C3));
    assert_eq!(instrument.reconcile(Message::NoteOff(Note::C3)), Some(Note::E3));
    assert_eq!(instrument.reconcile(Message::NoteOff(Note::E3)), None);
}

#[test]
fn releasing_a_note_not_held_keeps_the_sounding_one() {
    let mut instrument = Instrument::new();

    instrument.reconcile(Message::NoteOn(Note::C3));
    assert_eq!(instrument.reconcile(Message::NoteOff(Note::D3)), Some(Note::C3));
}

#[test]
fn controller_parse_note_on() {
    let mut controller = Controller::new();

    assert!(controller.reconcile_byte(0x92).is_none());
    assert!(controller.reconcile_byte(0x45).is_none());
    assert_eq!(controller.reconcile_byte(0x7f).unwrap(), Some(Note::A4));
}

#[test]
fn controller_note_off_releases_to_the_previous_note() {
    let mut controller = Controller::new();

    for byte in [0x90, 0x3c, 0x40, 0x40, 0x40] {
        controller.reconcile_byte(byte);
    }
    assert_eq!(controller.reconcile_byte(0x80), None);
    assert_eq!(controller.reconcile_byte(0x40), None);
    assert_eq!(controller.reconcile_byte(0x00), Some(Some(Note::C4)));
    assert_eq!(controller.reconcile_byte(0x3c), None);
    assert_eq!(controller.reconcile_byte(0x00), Some(None));
}

#[test]
fn controller_ignores_other_messages() {
    let mut controller = Controller::new();

    assert_eq!(controller.reconcile_byte(0xb0), None);
    assert_eq!(controller.reconcile_byte(0x07), None);
    assert_eq!(controller.reconcile_byte(0x7f), None);
}
