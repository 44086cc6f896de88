use vstd::prelude::*;

verus! {

/// A note of the MIDI range, from C-1 (MIDI number 0) up to G9 (MIDI number
/// 127). Flat names are the variants; sharp names are associated constants.
#[derive(Copy, Clone, Hash, PartialEq, Eq, Structural, PartialOrd, Ord, Debug)]
pub enum Note {
    CMinus1,
    DbMinus1,
    DMinus1,
    EbMinus1,
    EMinus1,
    FMinus1,
    GbMinus1,
    GMinus1,
    AbMinus1,
    AMinus1,
    BbMinus1,
    BMinus1,
    C0,
    Db0,
    D0,
    Eb0,
    E0,
    F0,
    Gb0,
    G0,
    Ab0,
    A0,
    Bb0,
    B0,
    C1,
    Db1,
    D1,
    Eb1,
    E1,
    F1,
    Gb1,
    G1,
    Ab1,
    A1,
    Bb1,
    B1,
    C2,
    Db2,
    D2,
    Eb2,
    E2,
    F2,
    Gb2,
    G2,
    Ab2,
    A2,
    Bb2,
    B2,
    C3,
    Db3,
    D3,
    Eb3,
    E3,
    F3,
    Gb3,
    G3,
    Ab3,
    A3,
    Bb3,
    B3,
    C4,
    Db4,
    D4,
    Eb4,
    E4,
    F4,
    Gb4,
    G4,
    Ab4,
    A4,
    Bb4,
    B4,
    C5,
    Db5,
    D5,
    Eb5,
    E5,
    F5,
    Gb5,
    G5,
    Ab5,
    A5,
    Bb5,
    B5,
    C6,
    Db6,
    D6,
    Eb6,
    E6,
    F6,
    Gb6,
    G6,
    Ab6,
    A6,
    Bb6,
    B6,
    C7,
    Db7,
    D7,
    Eb7,
    E7,
    F7,
    Gb7,
    G7,
    Ab7,
    A7,
    Bb7,
    B7,
    C8,
    Db8,
    D8,
    Eb8,
    E8,
    F8,
    Gb8,
    G8,
    Ab8,
    A8,
    Bb8,
    B8,
    C9,
    Db9,
    D9,
    Eb9,
    E9,
    F9,
    Gb9,
    G9,
}

/// The highest MIDI number that names a note.
pub const HIGHEST_MIDI_ID: u8 = 127;

/// Whether `id` is the MIDI number of some note.
pub open spec fn is_note_id(id: int) -> bool {
    0 <= id <= HIGHEST_MIDI_ID
}

#[allow(non_upper_case_globals)]
impl Note {
    pub const CSharpMinus1: Note = Note::DbMinus1;
    pub const DSharpMinus1: Note = Note::EbMinus1;
    pub const FSharpMinus1: Note = Note::GbMinus1;
    pub const GSharpMinus1: Note = Note::AbMinus1;
    pub const ASharpMinus1: Note = Note::BbMinus1;
    pub const CSharp0: Note = Note::Db0;
    pub const DSharp0: Note = Note::Eb0;
    pub const FSharp0: Note = Note::Gb0;
    pub const GSharp0: Note = Note::Ab0;
    pub const ASharp0: Note = Note::Bb0;
    pub const CSharp1: Note = Note::Db1;
    pub const DSharp1: Note = Note::Eb1;
    pub const FSharp1: Note = Note::Gb1;
    pub const GSharp1: Note = Note::Ab1;
    pub const ASharp1: Note = Note::Bb1;
    pub const CSharp2: Note = Note::Db2;
    pub const DSharp2: Note = Note::Eb2;
    pub const FSharp2: Note = Note::Gb2;
    pub const GSharp2: Note = Note::Ab2;
    pub const ASharp2: Note = Note::Bb2;
    pub const CSharp3: Note = Note::Db3;
    pub const DSharp3: Note = Note::Eb3;
    pub const FSharp3: Note = Note::Gb3;
    pub const GSharp3: Note = Note::Ab3;
    pub const ASharp3: Note = Note::Bb3;
    pub const CSharp4: Note = Note::Db4;
    pub const DSharp4: Note = Note::Eb4;
    pub const FSharp4: Note = Note::Gb4;
    pub const GSharp4: Note = Note::Ab4;
    pub const ASharp4: Note = Note::Bb4;
    pub const CSharp5: Note = Note::Db5;
    pub const DSharp5: Note = Note::Eb5;
    pub const FSharp5: Note = Note::Gb5;
    pub const GSharp5: Note = Note::Ab5;
    pub const ASharp5: Note = Note::Bb5;
    pub const CSharp6: Note = Note::Db6;
    pub const DSharp6: Note = Note::Eb6;
    pub const FSharp6: Note = Note::Gb6;
    pub const GSharp6: Note = Note::Ab6;
    pub const ASharp6: Note = Note::Bb6;
    pub const CSharp7: Note = Note::Db7;
    pub const DSharp7: Note = Note::Eb7;
    pub const FSharp7: Note = Note::Gb7;
    pub const GSharp7: Note = Note::Ab7;
    pub const ASharp7: Note = Note::Bb7;
    pub const CSharp8: Note = Note::Db8;
    pub const DSharp8: Note = Note::Eb8;
    pub const FSharp8: Note = Note::Gb8;
    pub const GSharp8: Note = Note::Ab8;
    pub const ASharp8: Note = Note::Bb8;
    pub const CSharp9: Note = Note::Db9;
    pub const DSharp9: Note = Note::Eb9;
    pub const FSharp9: Note = Note::Gb9;

    /// The highest note of the range, G9.
    pub const HIGHEST_NOTE: Note = Note::G9;

    /// MIDI number of the note: its distance in semitones from C-1.
    pub open spec fn id(self) -> int {
        match self {
            Note::CMinus1 => 0,
            Note::DbMinus1 => 1,
            Note::DMinus1 => 2,
            Note::EbMinus1 => 3,
            Note::EMinus1 => 4,
            Note::FMinus1 => 5,
            Note::GbMinus1 => 6,
            Note::GMinus1 => 7,
            Note::AbMinus1 => 8,
            Note::AMinus1 => 9,
            Note::BbMinus1 => 10,
            Note::BMinus1 => 11,
            Note::C0 => 12,
            Note::Db0 => 13,
            Note::D0 => 14,
            Note::Eb0 => 15,
            Note::E0 => 16,
            Note::F0 => 17,
            Note::Gb0 => 18,
            Note::G0 => 19,
            Note::Ab0 => 20,
            Note::A0 => 21,
            Note::Bb0 => 22,
            Note::B0 => 23,
            Note::C1 => 24,
            Note::Db1 => 25,
            Note::D1 => 26,
            Note::Eb1 => 27,
            Note::E1 => 28,
            Note::F1 => 29,
            Note::Gb1 => 30,
            Note::G1 => 31,
            Note::Ab1 => 32,
            Note::A1 => 33,
            Note::Bb1 => 34,
            Note::B1 => 35,
            Note::C2 => 36,
            Note::Db2 => 37,
            Note::D2 => 38,
            Note::Eb2 => 39,
            Note::E2 => 40,
            Note::F2 => 41,
            Note::Gb2 => 42,
            Note::G2 => 43,
            Note::Ab2 => 44,
            Note::A2 => 45,
            Note::Bb2 => 46,
            Note::B2 => 47,
            Note::C3 => 48,
            Note::Db3 => 49,
            Note::D3 => 50,
            Note::Eb3 => 51,
            Note::E3 => 52,
            Note::F3 => 53,
            Note::Gb3 => 54,
            Note::G3 => 55,
            Note::Ab3 => 56,
            Note::A3 => 57,
            Note::Bb3 => 58,
            Note::B3 => 59,
            Note::C4 => 60,
            Note::Db4 => 61,
            Note::D4 => 62,
            Note::Eb4 => 63,
            Note::E4 => 64,
            Note::F4 => 65,
            Note::Gb4 => 66,
            Note::G4 => 67,
            Note::Ab4 => 68,
            Note::A4 => 69,
            Note::Bb4 => 70,
            Note::B4 => 71,
            Note::C5 => 72,
            Note::Db5 => 73,
            Note::D5 => 74,
            Note::Eb5 => 75,
            Note::E5 => 76,
            Note::F5 => 77,
            Note::Gb5 => 78,
            Note::G5 => 79,
            Note::Ab5 => 80,
            Note::A5 => 81,
            Note::Bb5 => 82,
            Note::B5 => 83,
            Note::C6 => 84,
            Note::Db6 => 85,
            Note::D6 => 86,
            Note::Eb6 => 87,
            Note::E6 => 88,
            Note::F6 => 89,
            Note::Gb6 => 90,
            Note::G6 => 91,
            Note::Ab6 => 92,
            Note::A6 => 93,
            Note::Bb6 => 94,
            Note::B6 => 95,
            Note::C7 => 96,
            Note::Db7 => 97,
            Note::D7 => 98,
            Note::Eb7 => 99,
            Note::E7 => 100,
            Note::F7 => 101,
            Note::Gb7 => 102,
            Note::G7 => 103,
            Note::Ab7 => 104,
            Note::A7 => 105,
            Note::Bb7 => 106,
            Note::B7 => 107,
            Note::C8 => 108,
            Note::Db8 => 109,
            Note::D8 => 110,
            Note::Eb8 => 111,
            Note::E8 => 112,
            Note::F8 => 113,
            Note::Gb8 => 114,
            Note::G8 => 115,
            Note::Ab8 => 116,
            Note::A8 => 117,
            Note::Bb8 => 118,
            Note::B8 => 119,
            Note::C9 => 120,
            Note::Db9 => 121,
            Note::D9 => 122,
            Note::Eb9 => 123,
            Note::E9 => 124,
            Note::F9 => 125,
            Note::Gb9 => 126,
            Note::G9 => 127,
        }
    }

    /// Pitch class of the note: 0 for C, 1 for C#, ..., 11 for B.
    pub open spec fn pitch_class(self) -> int {
        self.id() % 12
    }

    /// Every note has a MIDI number in the range.
    pub proof fn lemma_id_in_range(self)
        ensures
            is_note_id(self.id()),
    {
    }

    /// The note whose MIDI number is `note`.
    pub fn from_u8(note: u8) -> (r: Note)
        requires
            note <= HIGHEST_MIDI_ID,
        ensures
            r.id() == note,
        no_unwind
    {
        match note {
            0 => Note::CMinus1,
            1 => Note::DbMinus1,
            2 => Note::DMinus1,
            3 => Note::EbMinus1,
            4 => Note::EMinus1,
            5 => Note::FMinus1,
            6 => Note::GbMinus1,
            7 => Note::GMinus1,
            8 => Note::AbMinus1,
            9 => Note::AMinus1,
            10 => Note::BbMinus1,
            11 => Note::BMinus1,
            12 => Note::C0,
            13 => Note::Db0,
            14 => Note::D0,
            15 => Note::Eb0,
            16 => Note::E0,
            17 => Note::F0,
            18 => Note::Gb0,
            19 => Note::G0,
            20 => Note::Ab0,
            21 => Note::A0,
            22 => Note::Bb0,
            23 => Note::B0,
            24 => Note::C1,
            25 => Note::Db1,
            26 => Note::D1,
            27 => Note::Eb1,
            28 => Note::E1,
            29 => Note::F1,
            30 => Note::Gb1,
            31 => Note::G1,
            32 => Note::Ab1,
            33 => Note::A1,
            34 => Note::Bb1,
            35 => Note::B1,
            36 => Note::C2,
            37 => Note::Db2,
            38 => Note::D2,
            39 => Note::Eb2,
            40 => Note::E2,
            41 => Note::F2,
            42 => Note::Gb2,
            43 => Note::G2,
            44 => Note::Ab2,
            45 => Note::A2,
            46 => Note::Bb2,
            47 => Note::B2,
            48 => Note::C3,
            49 => Note::Db3,
            50 => Note::D3,
            51 => Note::Eb3,
            52 => Note::E3,
            53 => Note::F3,
            54 => Note::Gb3,
            55 => Note::G3,
            56 => Note::Ab3,
            57 => Note::A3,
            58 => Note::Bb3,
            59 => Note::B3,
            60 => Note::C4,
            61 => Note::Db4,
            62 => Note::D4,
            63 => Note::Eb4,
            64 => Note::E4,
            65 => Note::F4,
            66 => Note::Gb4,
            67 => Note::G4,
            68 => Note::Ab4,
            69 => Note::A4,
            70 => Note::Bb4,
            71 => Note::B4,
            72 => Note::C5,
            73 => Note::Db5,
            74 => Note::D5,
            75 => Note::Eb5,
            76 => Note::E5,
            77 => Note::F5,
            78 => Note::Gb5,
            79 => Note::G5,
            80 => Note::Ab5,
            81 => Note::A5,
            82 => Note::Bb5,
            83 => Note::B5,
            84 => Note::C6,
            85 => Note::Db6,
            86 => Note::D6,
            87 => Note::Eb6,
            88 => Note::E6,
            89 => Note::F6,
            90 => Note::Gb6,
            91 => Note::G6,
            92 => Note::Ab6,
            93 => Note::A6,
            94 => Note::Bb6,
            95 => Note::B6,
            96 => Note::C7,
            97 => Note::Db7,
            98 => Note::D7,
            99 => Note::Eb7,
            100 => Note::E7,
            101 => Note::F7,
            102 => Note::Gb7,
            103 => Note::G7,
            104 => Note::Ab7,
            105 => Note::A7,
            106 => Note::Bb7,
            107 => Note::B7,
            108 => Note::C8,
            109 => Note::Db8,
            110 => Note::D8,
            111 => Note::Eb8,
            112 => Note::E8,
            113 => Note::F8,
            114 => Note::Gb8,
            115 => Note::G8,
            116 => Note::Ab8,
            117 => Note::A8,
            118 => Note::Bb8,
            119 => Note::B8,
            120 => Note::C9,
            121 => Note::Db9,
            122 => Note::D9,
            123 => Note::Eb9,
            124 => Note::E9,
            125 => Note::F9,
            126 => Note::Gb9,
            _ => Note::G9,
        }
    }

    /// The note whose MIDI number is `note`, or `None` if there is none.
    pub fn try_from_u8(note: u8) -> (r: Option<Note>)
        ensures
            r is Some <==> note <= HIGHEST_MIDI_ID,
            r matches Some(n) ==> n.id() == note,
    {
        Self::try_from_i16(note as i16)
    }

    /// The note whose MIDI number is `note`, or `None` if there is none.
    pub fn try_from_i16(note: i16) -> (r: Option<Note>)
        ensures
            r is Some <==> is_note_id(note as int),
            r matches Some(n) ==> n.id() == note,
    {
        if note >= 0 && note <= HIGHEST_MIDI_ID as i16 {
            Some(Self::from_u8(note as u8))
        } else {
            None
        }
    }

    /// MIDI number of the note.
    pub fn to_midi_id(self) -> (r: u8)
        ensures
            r == self.id(),
        no_unwind
    {
        match self {
            Note::CMinus1 => 0,
            Note::DbMinus1 => 1,
            Note::DMinus1 => 2,
            Note::EbMinus1 => 3,
            Note::EMinus1 => 4,
            Note::FMinus1 => 5,
            Note::GbMinus1 => 6,
            Note::GMinus1 => 7,
            Note::AbMinus1 => 8,
            Note::AMinus1 => 9,
            Note::BbMinus1 => 10,
            Note::BMinus1 => 11,
            Note::C0 => 12,
            Note::Db0 => 13,
            Note::D0 => 14,
            Note::Eb0 => 15,
            Note::E0 => 16,
            Note::F0 => 17,
            Note::Gb0 => 18,
            Note::G0 => 19,
            Note::Ab0 => 20,
            Note::A0 => 21,
            Note::Bb0 => 22,
            Note::B0 => 23,
            Note::C1 => 24,
            Note::Db1 => 25,
            Note::D1 => 26,
            Note::Eb1 => 27,
            Note::E1 => 28,
            Note::F1 => 29,
            Note::Gb1 => 30,
            Note::G1 => 31,
            Note::Ab1 => 32,
            Note::A1 => 33,
            Note::Bb1 => 34,
            Note::B1 => 35,
            Note::C2 => 36,
            Note::Db2 => 37,
            Note::D2 => 38,
            Note::Eb2 => 39,
            Note::E2 => 40,
            Note::F2 => 41,
            Note::Gb2 => 42,
            Note::G2 => 43,
            Note::Ab2 => 44,
            Note::A2 => 45,
            Note::Bb2 => 46,
            Note::B2 => 47,
            Note::C3 => 48,
            Note::Db3 => 49,
            Note::D3 => 50,
            Note::Eb3 => 51,
            Note::E3 => 52,
            Note::F3 => 53,
            Note::Gb3 => 54,
            Note::G3 => 55,
            Note::Ab3 => 56,
            Note::A3 => 57,
            Note::Bb3 => 58,
            Note::B3 => 59,
            Note::C4 => 60,
            Note::Db4 => 61,
            Note::D4 => 62,
            Note::Eb4 => 63,
            Note::E4 => 64,
            Note::F4 => 65,
            Note::Gb4 => 66,
            Note::G4 => 67,
            Note::Ab4 => 68,
            Note::A4 => 69,
            Note::Bb4 => 70,
            Note::B4 => 71,
            Note::C5 => 72,
            Note::Db5 => 73,
            Note::D5 => 74,
            Note::Eb5 => 75,
            Note::E5 => 76,
            Note::F5 => 77,
            Note::Gb5 => 78,
            Note::G5 => 79,
            Note::Ab5 => 80,
            Note::A5 => 81,
            Note::Bb5 => 82,
            Note::B5 => 83,
            Note::C6 => 84,
            Note::Db6 => 85,
            Note::D6 => 86,
            Note::Eb6 => 87,
            Note::E6 => 88,
            Note::F6 => 89,
            Note::Gb6 => 90,
            Note::G6 => 91,
            Note::Ab6 => 92,
            Note::A6 => 93,
            Note::Bb6 => 94,
            Note::B6 => 95,
            Note::C7 => 96,
            Note::Db7 => 97,
            Note::D7 => 98,
            Note::Eb7 => 99,
            Note::E7 => 100,
            Note::F7 => 101,
            Note::Gb7 => 102,
            Note::G7 => 103,
            Note::Ab7 => 104,
            Note::A7 => 105,
            Note::Bb7 => 106,
            Note::B7 => 107,
            Note::C8 => 108,
            Note::Db8 => 109,
            Note::D8 => 110,
            Note::Eb8 => 111,
            Note::E8 => 112,
            Note::F8 => 113,
            Note::Gb8 => 114,
            Note::G8 => 115,
            Note::Ab8 => 116,
            Note::A8 => 117,
            Note::Bb8 => 118,
            Note::B8 => 119,
            Note::C9 => 120,
            Note::Db9 => 121,
            Note::D9 => 122,
            Note::Eb9 => 123,
            Note::E9 => 124,
            Note::F9 => 125,
            Note::Gb9 => 126,
            Note::G9 => 127,
        }
    }
}

/// Two notes with the same MIDI number are the same note, so that reading a
/// note back from its MIDI number gives the note itself.
pub proof fn lemma_id_injective(a: Note, b: Note)
    requires
        a.id() == b.id(),
    ensures
        a == b,
{
}


impl From<Note> for u8 {
    /// The MIDI number of the note.
    fn from(note: Note) -> (r: u8)
        ensures
            r == note.id(),
    {
        note.to_midi_id()
    }
}

impl vstd::std_specs::convert::FromSpecImpl<Note> for u8 {
    open spec fn obeys_from_spec() -> bool {
        true
    }

    open spec fn from_spec(note: Note) -> u8 {
        note.id() as u8
    }
}

} // verus!
