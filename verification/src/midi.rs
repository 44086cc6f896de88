pub mod channel;
pub mod control;
pub mod controller;
pub mod message;
pub mod note;
pub mod parser;
pub mod usbd_midi;
pub mod velocity;

use vstd::prelude::*;

use crate::note::Note;

verus! {

/// Most notes held at once; pressing one more drops the oldest.
pub const MAX_NOTES: usize = 8;

/// MIDI numbers of the held notes, oldest first, in a vector of fixed
/// capacity `MAX_NOTES`.
#[verifier::external_body]
pub struct HeldNotes {
    ids: heapless::Vec<u8, heapless::consts::U8>,
}

/// What a `HeldNotes` holds, oldest first.
pub uninterp spec fn held_note_ids(notes: HeldNotes) -> Seq<u8>;

/// Calls `heapless::Vec::new`, which gives an empty vector.
#[verifier::external_body]
fn held_notes_new() -> (r: HeldNotes)
    ensures
        held_note_ids(r) == Seq::<u8>::empty(),
    no_unwind
{
    HeldNotes { ids: heapless::Vec::new() }
}

/// Calls `len` (through `Deref` to a slice) on the vector: the number of
/// items it holds, never more than its capacity.
#[verifier::external_body]
fn held_notes_len(notes: &HeldNotes) -> (r: usize)
    ensures
        r == held_note_ids(*notes).len(),
        r <= MAX_NOTES,
    no_unwind
{
    notes.ids.len()
}

/// Indexes the vector (through `Deref` to a slice): the item at `index`.
#[verifier::external_body]
fn held_notes_get(notes: &HeldNotes, index: usize) -> (r: u8)
    requires
        index < held_note_ids(*notes).len(),
    ensures
        r == held_note_ids(*notes)[index as int],
    no_unwind
{
    notes.ids[index]
}

/// Calls `heapless::Vec::push`: below capacity the item is appended and
/// `Ok` returned; at capacity the vector is left alone and the item handed
/// back in `Err`. It never panics.
#[verifier::external_body]
fn held_notes_push(notes: &mut HeldNotes, id: u8) -> (r: Result<(), u8>)
    ensures
        held_note_ids(*old(notes)).len() < MAX_NOTES ==> r is Ok && held_note_ids(*final(notes))
            == held_note_ids(*old(notes)).push(id),
        held_note_ids(*old(notes)).len() >= MAX_NOTES ==> (r matches Err(returned) && returned == id)
            && held_note_ids(*final(notes)) == held_note_ids(*old(notes)),
    no_unwind
{
    notes.ids.push(id)
}

/// `ids` without any occurrence of `id`, the others kept in order.
pub open spec fn without(ids: Seq<u8>, id: u8) -> Seq<u8>
    decreases ids.len(),
{
    if ids.len() == 0 {
        ids
    } else {
        without(ids.drop_last(), id) + if ids.last() == id {
            Seq::<u8>::empty()
        } else {
            seq![ids.last()]
        }
    }
}

/// `ids` with `id` appended, dropping the oldest one first when the buffer
/// is full.
pub open spec fn pushed(ids: Seq<u8>, id: u8) -> Seq<u8> {
    if ids.len() == MAX_NOTES {
        ids.drop_first().push(id)
    } else {
        ids.push(id)
    }
}

/// Whether every item is the MIDI number of a note.
pub open spec fn all_note_ids(ids: Seq<u8>) -> bool {
    forall|i: int| 0 <= i < ids.len() ==> #[trigger] ids[i] <= 127
}

/// The most recently pressed of the held notes, by MIDI number.
pub open spec fn newest(ids: Seq<u8>) -> Option<u8> {
    if ids.len() == 0 {
        None
    } else {
        Some(ids.last())
    }
}

/// Removing a note keeps no occurrence of it, keeps the others in order, and
/// does not lengthen the sequence.
pub proof fn lemma_without(ids: Seq<u8>, id: u8)
    ensures
        !without(ids, id).contains(id),
        without(ids, id).len() <= ids.len(),
        all_note_ids(ids) ==> all_note_ids(without(ids, id)),
        forall|x: u8| x != id ==> (ids.contains(x) <==> without(ids, id).contains(x)),
    decreases ids.len(),
{
    if ids.len() > 0 {
        lemma_without(ids.drop_last(), id);
        let rest = without(ids.drop_last(), id);
        let tail = if ids.last() == id {
            Seq::<u8>::empty()
        } else {
            seq![ids.last()]
        };
        assert forall|x: u8| x != id implies (ids.contains(x) <==> without(ids, id).contains(x)) by {
            if ids.contains(x) {
                let k = choose|k: int| 0 <= k < ids.len() && ids[k] == x;
                if k < ids.len() - 1 {
                    assert(ids.drop_last()[k] == x);
                    assert(ids.drop_last().contains(x));
                    assert(rest.contains(x));
                    let k2 = choose|k2: int| 0 <= k2 < rest.len() && rest[k2] == x;
                    assert((rest + tail)[k2] == x);
                } else {
                    assert((rest + tail)[rest.len() as int] == x);
                }
            }
            if without(ids, id).contains(x) {
                let k = choose|k: int| 0 <= k < (rest + tail).len() && (rest + tail)[k] == x;
                if k < rest.len() {
                    assert(rest[k] == x);
                    assert(rest.contains(x));
                    assert(ids.drop_last().contains(x));
                    let k2 = choose|k2: int| 0 <= k2 < ids.drop_last().len() && ids.drop_last()[k2] == x;
                    assert(ids.drop_last()[k2] == x);
                    assert(ids[k2] == x);
                } else {
                    assert(ids[ids.len() - 1] == x);
                }
            }
        }
        assert forall|i: int| 0 <= i < (rest + tail).len() implies (rest + tail)[i] != id by {
            if i < rest.len() {
                assert(rest[i] != id);
            }
        }
        if all_note_ids(ids) {
            assert(all_note_ids(ids.drop_last()));
            assert forall|i: int| 0 <= i < (rest + tail).len() implies #[trigger] (rest + tail)[i]
                <= 127 by {
                if i < rest.len() {
                    assert(rest[i] <= 127);
                }
            }
        }
    }
}

/// The notes that are held, by MIDI number, oldest first; at most
/// `MAX_NOTES` of them.
pub struct NoteBuffer {
    buffer: HeldNotes,
}

impl View for NoteBuffer {
    type V = Seq<u8>;

    closed spec fn view(&self) -> Seq<u8> {
        held_note_ids(self.buffer)
    }
}

impl NoteBuffer {
    #[verifier::type_invariant]
    spec fn holds_notes(self) -> bool {
        all_note_ids(held_note_ids(self.buffer))
    }

    /// An empty buffer.
    pub fn new() -> (r: Self)
        ensures
            r@ == Seq::<u8>::empty(),
    {
        Self { buffer: held_notes_new() }
    }

    /// Number of held notes.
    pub fn len(&self) -> (r: usize)
        ensures
            r == self@.len(),
            r <= MAX_NOTES,
    {
        held_notes_len(&self.buffer)
    }

    /// Holds `note` as the newest note; when the buffer is full, the oldest
    /// note is dropped first.
    pub fn push(&mut self, note: Note)
        ensures
            final(self)@ == pushed(old(self)@, note.id() as u8),
        no_unwind
    {
        proof {
            use_type_invariant(&*self);
        }
        if held_notes_len(&self.buffer) == MAX_NOTES {
            let mut rest = held_notes_new();
            let mut i: usize = 1;
            while i < MAX_NOTES
                invariant
                    1 <= i <= MAX_NOTES,
                    held_note_ids(self.buffer).len() == MAX_NOTES,
                    held_note_ids(rest) == held_note_ids(self.buffer).subrange(1, i as int),
                    all_note_ids(held_note_ids(self.buffer)),
                decreases MAX_NOTES - i,
            {
                let id = held_notes_get(&self.buffer, i);
                held_notes_push(&mut rest, id);
                assert(held_note_ids(rest) =~= held_note_ids(self.buffer).subrange(1, i + 1));
                i = i + 1;
            }
            assert(held_note_ids(rest) =~= held_note_ids(self.buffer).drop_first());
            self.buffer = rest;
        }
        let _ = held_notes_push(&mut self.buffer, note.to_midi_id());
    }

    /// Releases `note`: drops every occurrence of it, keeping the others in
    /// order.
    pub fn remove(&mut self, note: Note)
        ensures
            final(self)@ == without(old(self)@, note.id() as u8),
        no_unwind
    {
        proof {
            use_type_invariant(&*self);
        }
        let id = note.to_midi_id();
        let len = held_notes_len(&self.buffer);
        let mut kept = held_notes_new();
        let mut i: usize = 0;
        while i < len
            invariant
                i <= len,
                len == held_note_ids(self.buffer).len(),
                len <= MAX_NOTES,
                held_note_ids(kept) == without(held_note_ids(self.buffer).take(i as int), id),
                all_note_ids(held_note_ids(self.buffer)),
            decreases len - i,
        {
            proof {
                let ids = held_note_ids(self.buffer);
                assert(ids.take(i + 1).drop_last() =~= ids.take(i as int));
                lemma_without(ids.take(i as int), id);
            }
            let current = held_notes_get(&self.buffer, i);
            if current != id {
                held_notes_push(&mut kept, current);
            }
            i = i + 1;
        }
        proof {
            let ids = held_note_ids(self.buffer);
            assert(ids.take(len as int) =~= ids);
            lemma_without(ids, id);
        }
        self.buffer = kept;
    }

    /// The newest held note, if any.
    pub fn last(&self) -> (r: Option<Note>)
        ensures
            r is Some <==> self@.len() > 0,
            r matches Some(n) ==> newest(self@) == Some(n.id() as u8),
    {
        proof {
            use_type_invariant(self);
        }
        let len = held_notes_len(&self.buffer);
        if len == 0 {
            None
        } else {
            Some(Note::from_u8(held_notes_get(&self.buffer, len - 1)))
        }
    }
}


/// A note-on or note-off event for the monophonic instrument.
#[derive(Copy, Clone, PartialEq, Eq, Structural, Debug)]
pub enum Message {
    /// A key was pressed.
    NoteOn(Note),
    /// A key was released.
    NoteOff(Note),
}

/// Whether no MIDI number occurs twice.
pub open spec fn distinct(ids: Seq<u8>) -> bool {
    forall|i: int, j: int| 0 <= i < j < ids.len() ==> ids[i] != ids[j]
}

/// What the instrument holds after receiving `message` while holding `held`.
pub open spec fn reconciled(held: Seq<u8>, message: Message) -> Seq<u8> {
    match message {
        Message::NoteOn(note) => pushed(without(held, note.id() as u8), note.id() as u8),
        Message::NoteOff(note) => without(held, note.id() as u8),
    }
}

/// A monophonic instrument with last-note priority: it sounds the most
/// recently pressed of the keys that are still held.
pub struct Instrument {
    notes: NoteBuffer,
}

impl View for Instrument {
    type V = Seq<u8>;

    closed spec fn view(&self) -> Seq<u8> {
        self.notes@
    }
}

impl Instrument {
    #[verifier::type_invariant]
    spec fn notes_distinct(self) -> bool {
        &&& distinct(self.notes@)
        &&& all_note_ids(self.notes@)
        &&& self.notes@.len() <= MAX_NOTES
    }

    /// An instrument with no key held.
    pub fn new() -> (r: Self)
        ensures
            r@ == Seq::<u8>::empty(),
    {
        Self { notes: NoteBuffer::new() }
    }

    /// Receives a note-on or note-off message; gives the note that sounds
    /// afterwards, if any: the pressed note for a note-on, the newest still
    /// held note for a note-off.
    pub fn reconcile(&mut self, message: Message) -> (r: Option<Note>)
        ensures
            final(self)@ == reconciled(old(self)@, message),
            r is Some <==> final(self)@.len() > 0,
            r matches Some(n) ==> newest(final(self)@) == Some(n.id() as u8),
            message matches Message::NoteOn(note) ==> r == Some(note),
    {
        proof {
            use_type_invariant(&*self);
        }
        let ghost before = self.notes@;
        match message {
            Message::NoteOn(note) => {
                proof {
                    lemma_without(before, note.id() as u8);
                    lemma_without_distinct(before, note.id() as u8);
                    lemma_pushed_distinct(without(before, note.id() as u8), note.id() as u8);
                    lemma_pushed_note_ids(without(before, note.id() as u8), note.id() as u8);
                }
                self.notes.remove(note);
                self.notes.push(note);
                Some(note)
            },
            Message::NoteOff(note) => {
                proof {
                    lemma_without(before, note.id() as u8);
                    lemma_without_distinct(before, note.id() as u8);
                }
                self.notes.remove(note);
                self.notes.last()
            },
        }
    }
}

/// Removing a note from distinct notes leaves them distinct.
pub proof fn lemma_without_distinct(ids: Seq<u8>, id: u8)
    requires
        distinct(ids),
    ensures
        distinct(without(ids, id)),
    decreases ids.len(),
{
    if ids.len() > 0 {
        let rest = without(ids.drop_last(), id);
        lemma_without_distinct(ids.drop_last(), id);
        lemma_without(ids.drop_last(), id);
        if ids.last() != id {
            assert forall|i: int| 0 <= i < rest.len() implies rest[i] != ids.last() by {
                if rest[i] == ids.last() {
                    assert(rest.contains(ids.last()));
                    assert(ids.drop_last().contains(ids.last()));
                    let k = choose|k: int| 0 <= k < ids.drop_last().len() && ids.drop_last()[k] == ids.last();
                    assert(ids[k] == ids[ids.len() - 1]);
                }
            }
            assert(without(ids, id) =~= rest.push(ids.last()));
        } else {
            assert(without(ids, id) =~= rest);
        }
    }
}

/// Appending a note that is not held to distinct notes keeps them distinct.
pub proof fn lemma_pushed_distinct(ids: Seq<u8>, id: u8)
    requires
        distinct(ids),
        !ids.contains(id),
        ids.len() <= MAX_NOTES,
    ensures
        distinct(pushed(ids, id)),
        pushed(ids, id).len() <= MAX_NOTES,
{
    let base = if ids.len() == MAX_NOTES {
        ids.drop_first()
    } else {
        ids
    };
    assert forall|i: int| 0 <= i < base.len() implies base[i] != id by {
        if ids.len() == MAX_NOTES {
            assert(base[i] == ids[i + 1]);
        }
    }
}

/// Appending the MIDI number of a note keeps only MIDI numbers of notes.
pub proof fn lemma_pushed_note_ids(ids: Seq<u8>, id: u8)
    requires
        all_note_ids(ids),
        id <= 127,
    ensures
        all_note_ids(pushed(ids, id)),
{
    assert forall|i: int| 0 <= i < pushed(ids, id).len() implies #[trigger] pushed(ids, id)[i] <= 127 by {
        if i < pushed(ids, id).len() - 1 {
            if ids.len() == MAX_NOTES {
                assert(pushed(ids, id)[i] == ids[i + 1]);
            } else {
                assert(pushed(ids, id)[i] == ids[i]);
            }
        }
    }
}

/// Removing a note that is not held changes nothing.
pub proof fn lemma_without_absent(ids: Seq<u8>, id: u8)
    requires
        !ids.contains(id),
    ensures
        without(ids, id) == ids,
    decreases ids.len(),
{
    if ids.len() > 0 {
        assert(!ids.drop_last().contains(id)) by {
            if ids.drop_last().contains(id) {
                let k = choose|k: int| 0 <= k < ids.drop_last().len() && ids.drop_last()[k] == id;
                assert(ids[k] == id);
            }
        }
        lemma_without_absent(ids.drop_last(), id);
        assert(ids.last() != id);
        assert(without(ids, id) =~= ids);
    }
}

/// Last-note priority: pressing `a`, then pressing `b`, then releasing `b`
/// leaves `a` sounding, whatever was held before.
pub proof fn lemma_last_note_priority(held: Seq<u8>, a: Note, b: Note)
    requires
        a != b,
        held.len() <= MAX_NOTES,
    ensures
        newest(
            reconciled(
                reconciled(reconciled(held, Message::NoteOn(a)), Message::NoteOn(b)),
                Message::NoteOff(b),
            ),
        ) == Some(a.id() as u8),
{
    let ia = a.id() as u8;
    let ib = b.id() as u8;
    assert(ia != ib) by {
        if ia == ib {
            crate::note::lemma_id_injective(a, b);
        }
    }
    let s1 = reconciled(held, Message::NoteOn(a));
    lemma_without(held, ia);
    let x = if without(held, ia).len() == MAX_NOTES {
        without(held, ia).drop_first()
    } else {
        without(held, ia)
    };
    assert(s1 == x.push(ia));
    assert(x.push(ia).drop_last() =~= x);
    let y = without(x, ib);
    lemma_without(x, ib);
    assert(without(s1, ib) == y.push(ia));
    let z = if y.push(ia).len() == MAX_NOTES {
        y.push(ia).drop_first()
    } else {
        y.push(ia)
    };
    let s2 = reconciled(s1, Message::NoteOn(b));
    assert(s2 == z.push(ib));
    assert(z.len() > 0 && z.last() == ia);
    assert(!z.contains(ib)) by {
        if z.contains(ib) {
            let k = choose|k: int| 0 <= k < z.len() && z[k] == ib;
            if y.push(ia).len() == MAX_NOTES {
                assert(y.push(ia)[k + 1] == ib);
            } else {
                assert(y.push(ia)[k] == ib);
            }
            if k + 1 < y.len() || k < y.len() {
                assert(y.contains(ib));
            }
        }
    }
    assert(z.push(ib).drop_last() =~= z);
    lemma_without_absent(z, ib);
}

} // verus!
