use vstd::prelude::*;

use super::channel::Channel;
use super::message::Message;
use super::note::Note;
use super::velocity::Velocity;

verus! {

/// How far the parser got into the current message.
#[derive(Copy, Clone, PartialEq, Eq, Structural, Debug)]
pub enum ParserState {
    /// Waiting for a status byte the parser understands.
    Idle,
    /// A note-on status byte was received; its note is expected.
    NoteOnRecieved(Channel),
    /// A note-on status byte and its note were received; the velocity is
    /// expected.
    NoteOnNoteRecieved(Channel, Note),
    /// A note-off status byte was received; its note is expected.
    NoteOffRecieved(Channel),
    /// A note-off status byte and its note were received; the velocity is
    /// expected.
    NoteOffNoteRecieved(Channel, Note),
}

/// Reads MIDI note-on and note-off messages from a stream of bytes, with
/// running status: after a complete message, further data bytes are read as
/// another message of the same kind on the same channel.
pub struct Parser {
    state: ParserState,
}

impl View for Parser {
    type V = ParserState;

    closed spec fn view(&self) -> ParserState {
        self.state
    }
}

/// Whether `byte` is a status byte: its highest bit is set.
pub open spec fn is_status(byte: u8) -> bool {
    byte >= 0x80
}

/// Kind of message a status byte starts: its high nibble.
pub open spec fn status_kind(byte: u8) -> int {
    (byte as int / 16) * 16
}

/// Channel number a status byte addresses: its low nibble.
pub open spec fn status_channel(byte: u8) -> int {
    byte as int % 16
}

/// Status kind of a note-off message.
pub const NOTE_OFF: u8 = 0x80;

/// Status kind of a note-on message.
pub const NOTE_ON: u8 = 0x90;

/// Whether the parser, in state `state`, moves to state `next` and gives
/// `output` when it receives `byte`.
pub open spec fn parse_step(state: ParserState, byte: u8, next: ParserState, output: Option<
    Message,
>) -> bool {
    if is_status(byte) {
        &&& output is None
        &&& if status_kind(byte) == NOTE_OFF {
            next matches ParserState::NoteOffRecieved(c) && c.number() == status_channel(byte)
        } else if status_kind(byte) == NOTE_ON {
            next matches ParserState::NoteOnRecieved(c) && c.number() == status_channel(byte)
        } else {
            next == ParserState::Idle
        }
    } else {
        match state {
            ParserState::NoteOffRecieved(channel) => {
                &&& output is None
                &&& next matches ParserState::NoteOffNoteRecieved(c, note) && c == channel
                    && note.id() == byte
            },
            ParserState::NoteOffNoteRecieved(channel, note) => {
                &&& next == ParserState::NoteOffRecieved(channel)
                &&& output == Some(Message::NoteOff(channel, note))
            },
            ParserState::NoteOnRecieved(channel) => {
                &&& output is None
                &&& next matches ParserState::NoteOnNoteRecieved(c, note) && c == channel
                    && note.id() == byte
            },
            ParserState::NoteOnNoteRecieved(channel, note) => {
                &&& next == ParserState::NoteOnRecieved(channel)
                &&& output matches Some(Message::NoteOn(c, n, velocity)) && c == channel && n
                    == note && velocity@ == byte
            },
            ParserState::Idle => {
                &&& next == ParserState::Idle
                &&& output is None
            },
        }
    }
}

impl Parser {
    /// A parser waiting for its first status byte.
    pub fn new() -> (r: Self)
        ensures
            r@ == ParserState::Idle,
    {
        Parser { state: ParserState::Idle }
    }

    /// Receives one byte; gives the message that it completes, if any.
    pub fn parse_byte(&mut self, byte: u8) -> (r: Option<Message>)
        ensures
            parse_step(old(self)@, byte, final(self)@, r),
    {
        if is_status_byte(byte) {
            let (message, channel) = split_message_and_channel(byte);

            if message == NOTE_OFF {
                self.state = ParserState::NoteOffRecieved(channel);
                None
            } else if message == NOTE_ON {
                self.state = ParserState::NoteOnRecieved(channel);
                None
            } else {
                self.state = ParserState::Idle;
                None
            }
        } else {
            match self.state {
                ParserState::NoteOffRecieved(channel) => {
                    self.state = ParserState::NoteOffNoteRecieved(channel, Note::from_u8(byte));
                    None
                },
                ParserState::NoteOffNoteRecieved(channel, note) => {
                    self.state = ParserState::NoteOffRecieved(channel);
                    Some(Message::NoteOff(channel, note))
                },
                ParserState::NoteOnRecieved(channel) => {
                    self.state = ParserState::NoteOnNoteRecieved(channel, Note::from_u8(byte));
                    None
                },
                ParserState::NoteOnNoteRecieved(channel, note) => {
                    self.state = ParserState::NoteOnRecieved(channel);
                    Some(Message::NoteOn(channel, note, Velocity::from_u8(byte)))
                },
                ParserState::Idle => None,
            }
        }
    }
}

/// Whether `byte` is a status byte, see `is_status`.
pub fn is_status_byte(byte: u8) -> (r: bool)
    ensures
        r == is_status(byte),
{
    assert((byte & 0x80 == 0x80) == (byte >= 0x80)) by (bit_vector);
    byte & 0x80 == 0x80
}

/// Splits a status byte into its kind (high nibble) and its channel (low
/// nibble).
pub fn split_message_and_channel(byte: u8) -> (r: (u8, Channel))
    ensures
        r.0 == status_kind(byte),
        r.1.number() == status_channel(byte),
{
    assert(byte & 0xf0u8 == (byte / 16) * 16) by (bit_vector);
    assert(byte & 0x0fu8 == byte % 16) by (bit_vector);
    (byte & 0xf0u8, Channel::from_u8(byte & 0x0fu8))
}


/// A complete note-on message, status byte `0x90 + channel`, note byte and
/// velocity byte, is read as that message whatever the parser was doing
/// before: the first two bytes give nothing, the third gives the message,
/// and the parser stays ready for further notes on the same channel.
pub proof fn lemma_note_on_message(
    s0: ParserState,
    channel: u8,
    note: u8,
    velocity: u8,
    s1: ParserState,
    o1: Option<Message>,
    s2: ParserState,
    o2: Option<Message>,
    s3: ParserState,
    o3: Option<Message>,
)
    requires
        channel < 16,
        note < 128,
        velocity < 128,
        parse_step(s0, (NOTE_ON + channel) as u8, s1, o1),
        parse_step(s1, note, s2, o2),
        parse_step(s2, velocity, s3, o3),
    ensures
        o1 is None,
        o2 is None,
        o3 matches Some(Message::NoteOn(c, n, v)) && c.number() == channel && n.id() == note && v@
            == velocity,
        s3 matches ParserState::NoteOnRecieved(c) && c.number() == channel,
{
}

/// A complete note-off message, status byte `0x80 + channel`, note byte and
/// velocity byte, is read as that message whatever the parser was doing
/// before, and the parser stays ready for further notes on the same channel.
pub proof fn lemma_note_off_message(
    s0: ParserState,
    channel: u8,
    note: u8,
    velocity: u8,
    s1: ParserState,
    o1: Option<Message>,
    s2: ParserState,
    o2: Option<Message>,
    s3: ParserState,
    o3: Option<Message>,
)
    requires
        channel < 16,
        note < 128,
        velocity < 128,
        parse_step(s0, (NOTE_OFF + channel) as u8, s1, o1),
        parse_step(s1, note, s2, o2),
        parse_step(s2, velocity, s3, o3),
    ensures
        o1 is None,
        o2 is None,
        o3 matches Some(Message::NoteOff(c, n)) && c.number() == channel && n.id() == note,
        s3 matches ParserState::NoteOffRecieved(c) && c.number() == channel,
{
}

/// Running status: once a note-on (note-off) status byte has been read, each
/// further pair of data bytes is read as another note-on (note-off) message
/// on the same channel, and the parser comes back to the same state.
pub proof fn lemma_running_status(
    s0: ParserState,
    note: u8,
    velocity: u8,
    s1: ParserState,
    o1: Option<Message>,
    s2: ParserState,
    o2: Option<Message>,
)
    requires
        s0 is NoteOnRecieved || s0 is NoteOffRecieved,
        note < 128,
        velocity < 128,
        parse_step(s0, note, s1, o1),
        parse_step(s1, velocity, s2, o2),
    ensures
        o1 is None,
        s2 == s0,
        o2 is Some,
        s0 matches ParserState::NoteOnRecieved(c) ==> o2 matches Some(Message::NoteOn(c2, n, v))
            && c2 == c && n.id() == note && v@ == velocity,
        s0 matches ParserState::NoteOffRecieved(c) ==> o2 matches Some(Message::NoteOff(c2, n))
            && c2 == c && n.id() == note,
{
}

/// A status byte never completes a message, and a status byte of a kind
/// other than note-on or note-off makes the parser ignore the data bytes
/// that follow it.
pub proof fn lemma_status_byte_gives_nothing(
    s0: ParserState,
    status: u8,
    data: u8,
    s1: ParserState,
    o1: Option<Message>,
    s2: ParserState,
    o2: Option<Message>,
)
    requires
        is_status(status),
        parse_step(s0, status, s1, o1),
        status_kind(status) != NOTE_ON && status_kind(status) != NOTE_OFF,
        !is_status(data),
        parse_step(s1, data, s2, o2),
    ensures
        o1 is None,
        s1 == ParserState::Idle,
        o2 is None,
        s2 == ParserState::Idle,
{
}

} // verus!
