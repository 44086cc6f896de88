use vstd::prelude::*;

use super::channel::Channel;
use super::note::Note;
use super::velocity::Velocity;

verus! {

/// A MIDI message the module reacts to.
#[derive(Copy, Clone, PartialEq, Eq, Structural, Debug)]
pub enum Message {
    /// A key was pressed on `Channel`, with the given velocity.
    NoteOn(Channel, Note, Velocity),
    /// A key was released on `Channel`.
    NoteOff(Channel, Note),
}

} // verus!
