use vstd::prelude::*;

use super::message::Message as ChannelMessage;
use super::note::Note;
use super::parser::{parse_step, Parser, ParserState};
use super::{newest, reconciled, Instrument, Message};

verus! {

/// The message for the monophonic instrument that a parsed MIDI message
/// stands for: its channel and velocity are not used.
pub open spec fn instrument_message(message: ChannelMessage) -> Message {
    match message {
        ChannelMessage::NoteOn(_, note, _) => Message::NoteOn(note),
        ChannelMessage::NoteOff(_, note) => Message::NoteOff(note),
    }
}

/// The message for the monophonic instrument that `message` stands for.
pub fn to_instrument_message(message: ChannelMessage) -> (r: Message)
    ensures
        r == instrument_message(message),
{
    match message {
        ChannelMessage::NoteOn(_, note, _) => Message::NoteOn(note),
        ChannelMessage::NoteOff(_, note) => Message::NoteOff(note),
    }
}

/// Plays a stream of MIDI bytes on a monophonic instrument: every complete
/// note message goes to the instrument.
pub struct Controller {
    instrument: Instrument,
    parser: Parser,
}

impl View for Controller {
    /// The parser's state and the MIDI numbers of the held notes, oldest
    /// first.
    type V = (ParserState, Seq<u8>);

    closed spec fn view(&self) -> (ParserState, Seq<u8>) {
        (self.parser@, self.instrument@)
    }
}

impl Controller {
    /// A controller waiting for its first status byte, with no note held.
    pub fn new() -> (r: Self)
        ensures
            r@ == (ParserState::Idle, Seq::<u8>::empty()),
    {
        Controller { instrument: Instrument::new(), parser: Parser::new() }
    }

    /// Receives one byte of the stream. Where it completes a note message,
    /// the instrument receives that message and the result is `Some` of the
    /// note that sounds afterwards (`None` for silence); otherwise the result
    /// is `None` and the held notes stay as they were.
    pub fn reconcile_byte(&mut self, byte: u8) -> (r: Option<Option<Note>>)
        ensures
            r is None ==> parse_step(old(self)@.0, byte, final(self)@.0, None) && final(self)@.1
                == old(self)@.1,
            r is Some ==> exists|m: ChannelMessage|
                #[trigger] parse_step(old(self)@.0, byte, final(self)@.0, Some(m)) && final(self)@.1
                    == reconciled(old(self)@.1, instrument_message(m)),
            r matches Some(sounding) ==> (sounding is Some <==> final(self)@.1.len() > 0),
            r matches Some(sounding) ==> (sounding matches Some(n) ==> newest(final(self)@.1)
                == Some(n.id() as u8)),
    {
        match self.parser.parse_byte(byte) {
            Some(message) => {
                let ghost held = self.instrument@;
                let sounding = self.instrument.reconcile(to_instrument_message(message));
                assert(parse_step(old(self)@.0, byte, self@.0, Some(message)) && self@.1 == reconciled(
                    held,
                    instrument_message(message),
                ));
                Some(sounding)
            },
            None => None,
        }
    }
}

} // verus!
