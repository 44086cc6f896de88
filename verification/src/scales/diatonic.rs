use vstd::prelude::*;

use crate::note::{is_note_id, Note};

verus! {

/// The seven diatonic modes and the harmonic minor scale.
#[derive(Copy, Clone, Hash, PartialEq, Eq, Structural, PartialOrd, Ord, Debug)]
pub enum Mode {
    Ionian,
    Dorian,
    Phrygian,
    Lydian,
    Mixolydian,
    Aeolian,
    Locrian,
    HarmonicMinor,
}

/// Number of steps of every scale within one octave.
pub const SCALE_STEPS: usize = 7;

/// Semitones of each step of the scale above its root, within one octave.
pub open spec fn semitones(mode: Mode) -> Seq<int> {
    match mode {
        Mode::Ionian => seq![0, 2, 4, 5, 7, 9, 11],
        Mode::Dorian => seq![0, 2, 3, 5, 7, 9, 10],
        Mode::Phrygian => seq![0, 1, 3, 5, 7, 8, 10],
        Mode::Lydian => seq![0, 2, 4, 6, 7, 9, 11],
        Mode::Mixolydian => seq![0, 2, 4, 5, 7, 9, 10],
        Mode::Aeolian => seq![0, 2, 3, 5, 7, 8, 10],
        Mode::Locrian => seq![0, 1, 3, 5, 6, 8, 10],
        Mode::HarmonicMinor => seq![0, 2, 3, 5, 7, 8, 11],
    }
}

/// Every scale starts on its root, rises strictly and stays within an octave.
pub proof fn lemma_semitones_shape(mode: Mode)
    ensures
        semitones(mode).len() == 7,
        semitones(mode)[0] == 0,
        forall|i: int, j: int| 0 <= i < j < 7 ==> semitones(mode)[i] < semitones(mode)[j],
        forall|i: int| 0 <= i < 7 ==> 0 <= #[trigger] semitones(mode)[i] <= 11,
{
    assert(semitones(mode).len() == 7);
}

/// Semitones of the step `k` of the scale above its root, where `k` may lie
/// in any octave: step 7 is the root an octave above, step -1 the last step
/// an octave below.
pub open spec fn scale_position(mode: Mode, k: int) -> int {
    12 * (k / 7) + semitones(mode)[k % 7]
}

/// Semitones of step `step` (0 to 6) of the scale above its root.
pub fn semitone(mode: Mode, step: usize) -> (r: i8)
    requires
        step < SCALE_STEPS,
    ensures
        r == semitones(mode)[step as int],
{
    let table: [i8; 7] = match mode {
        Mode::Ionian => [0, 2, 4, 5, 7, 9, 11],
        Mode::Dorian => [0, 2, 3, 5, 7, 9, 10],
        Mode::Phrygian => [0, 1, 3, 5, 7, 8, 10],
        Mode::Lydian => [0, 2, 4, 6, 7, 9, 11],
        Mode::Mixolydian => [0, 2, 4, 5, 7, 9, 10],
        Mode::Aeolian => [0, 2, 3, 5, 7, 8, 10],
        Mode::Locrian => [0, 1, 3, 5, 6, 8, 10],
        Mode::HarmonicMinor => [0, 2, 3, 5, 7, 8, 11],
    };
    table[step]
}


/// Semitones from the pitch class of `root` up to the pitch class of
/// `note`, within one octave (0 to 11).
pub open spec fn pitch_class_interval(root: Note, note: Note) -> int {
    (note.pitch_class() - root.pitch_class() + 12) % 12
}

/// The first step of the scale, at or after `from`, that lies `distance`
/// semitones above the root; 0 when there is none.
pub open spec fn step_of(mode: Mode, distance: int, from: int) -> int
    decreases 7 - from,
{
    if from >= 7 || from < 0 {
        0
    } else if semitones(mode)[from] == distance {
        from
    } else {
        step_of(mode, distance, from + 1)
    }
}

/// The step of the scale that `note` stands on: the step that lies as many
/// semitones above the root as the note's pitch class lies above the root's
/// within the octave, or the root's step when the note is not in the scale.
pub open spec fn scale_index(root: Note, mode: Mode, note: Note) -> int {
    step_of(mode, pitch_class_interval(root, note), 0)
}

/// Scale steps between a note and the degree `interval` counted from it:
/// degree 1 is the note itself, 2 the next step up, -2 the next step down.
pub open spec fn degree_steps(interval: int) -> int {
    if interval > 0 {
        interval - 1
    } else {
        interval + 1
    }
}

/// MIDI number of the degree `interval` of the scale counted from `note`.
pub open spec fn degree_target(root: Note, mode: Mode, note: Note, interval: int) -> int {
    let index = scale_index(root, mode, note);
    note.id() + scale_position(mode, index + degree_steps(interval)) - scale_position(mode, index)
}

/// Whether `r` is what the degree `interval` of the scale, counted from
/// `note`, comes to: nothing for the degree 0, else the note at
/// `degree_target` when that lies within the MIDI range and nothing otherwise.
pub open spec fn is_degree_of(root: Note, mode: Mode, note: Note, interval: int, r: Option<Note>) -> bool {
    if interval == 0 {
        r is None
    } else {
        &&& (r is Some <==> is_note_id(degree_target(root, mode, note, interval)))
        &&& (r matches Some(n) ==> n.id() == degree_target(root, mode, note, interval))
    }
}

/// Scale arithmetics. Find a note from the given scale, defined by its `root`
/// and `mode`, that forms an `interval` from given `note`. The interval is a
/// scale degree: 1 is the unison, 2 a second above, -2 a second below; 0
/// names no degree.
pub fn lookup_degree(root: Note, mode: Mode, note: Note, interval: i32) -> (r: Option<Note>)
    ensures
        is_degree_of(root, mode, note, interval as int, r),
{
    if interval == 0 {
        return None;
    }
    let distance: i64 = if interval > 0 {
        interval as i64 - 1
    } else {
        interval as i64 + 1
    };

    let note_index = find_index_in_scale(root, mode, note);
    let total_semitone_distance = semitone_distance(mode, note_index, distance);
    let target = note.to_midi_id() as i64 + total_semitone_distance;
    if -32768 <= target && target <= 32767 {
        Note::try_from_i16(target as i16)
    } else {
        None
    }
}

/// Semitones between step `index` of the scale and the step `distance` steps
/// away from it, counted as whole octaves plus a step within the octave.
fn semitone_distance(mode: Mode, index: usize, distance: i64) -> (r: i64)
    requires
        index < SCALE_STEPS,
        -0x8000_0000 <= distance <= 0x8000_0000,
    ensures
        r == scale_position(mode, index + distance) - scale_position(mode, index as int),
        -0x1_0000_0000 <= r <= 0x1_0000_0000,
{
    proof {
        lemma_semitones_shape(mode);
    }
    let octave_distance: i64 = if distance < 0 {
        // Start an octave lower, suboctave distance is always adding to right
        -(((-distance - 1) / 7) + 1) * 12
    } else {
        (distance / 7) * 12
    };

    let step = index as i64 + distance;
    let wrapped: i64 = if step >= 0 {
        step % 7
    } else {
        let rest = (-step) % 7;
        if rest == 0 {
            0
        } else {
            7 - rest
        }
    };
    assert(wrapped == step % 7);

    let suboctave_distance: i64 = {
        let delta = semitone(mode, wrapped as usize) as i64 - semitone(mode, index) as i64;
        if delta < 0 {
            // Treat the scale as circular
            delta + 12
        } else {
            delta
        }
    };

    let total_semitone_distance = octave_distance + suboctave_distance;
    proof {
        lemma_octave_arithmetic(mode, index as int, distance as int);
    }
    assert(total_semitone_distance == scale_position(mode, index + distance) - scale_position(mode, index as int));
    total_semitone_distance
}

/// The step found by `step_of` is a step of the scale.
pub proof fn lemma_step_of_range(mode: Mode, distance: int, from: int)
    ensures
        0 <= step_of(mode, distance, from) < 7,
    decreases 7 - from,
{
    if 0 <= from < 7 && semitones(mode)[from] != distance {
        lemma_step_of_range(mode, distance, from + 1);
    }
}

/// Moving `distance` steps from step `index` as octaves plus a step within
/// the octave, treating the scale as circular, lands on the scale position
/// `index + distance`.
proof fn lemma_octave_arithmetic(mode: Mode, index: int, distance: int)
    requires
        0 <= index < 7,
    ensures
        ({
            let octave = if distance < 0 {
                -(((-distance - 1) / 7) + 1) * 12
            } else {
                (distance / 7) * 12
            };
            let delta = semitones(mode)[(index + distance) % 7] - semitones(mode)[index];
            let sub = if delta < 0 { delta + 12 } else { delta };
            octave + sub == scale_position(mode, index + distance) - scale_position(mode, index)
        }),
{
    lemma_semitones_shape(mode);
    let k = index + distance;
    assert(index / 7 == 0 && index % 7 == index);
    if distance >= 0 {
        let q = distance / 7;
        let r = distance % 7;
        assert(distance == 7 * q + r);
        if index + r >= 7 {
            assert(k / 7 == q + 1 && k % 7 == index + r - 7);
        } else {
            assert(k / 7 == q && k % 7 == index + r);
        }
    } else {
        let m = -distance - 1;
        let q = m / 7;
        let r = m % 7;
        assert(m == 7 * q + r);
        assert(k == index - 7 * q - r - 1);
        if index - r - 1 >= 0 {
            assert(k / 7 == -q && k % 7 == index - r - 1);
        } else {
            assert(k / 7 == -q - 1 && k % 7 == index - r + 6);
        }
    }
}

/// Step of the scale that `note` stands on, see `scale_index`.
pub fn find_index_in_scale(root: Note, mode: Mode, note: Note) -> (r: usize)
    ensures
        r == scale_index(root, mode, note),
        r < SCALE_STEPS,
{
    let scale_root_to_note_distance: i32 = {
        let scale_id = (root.to_midi_id() % 12) as i32;
        let note_id = (note.to_midi_id() % 12) as i32;
        (note_id + 12 - scale_id) % 12
    };
    proof {
        lemma_step_of_range(mode, scale_root_to_note_distance as int, 0);
    }

    let mut i: usize = 0;
    while i < SCALE_STEPS
        invariant
            i <= SCALE_STEPS,
            scale_root_to_note_distance == pitch_class_interval(root, note),
            step_of(mode, scale_root_to_note_distance as int, 0) == step_of(
                mode,
                scale_root_to_note_distance as int,
                i as int,
            ),
        decreases SCALE_STEPS - i,
    {
        if semitone(mode, i) as i32 == scale_root_to_note_distance {
            return i;
        }
        i = i + 1;
    }
    0
}


/// The scale position of a step one octave (seven steps) higher is twelve
/// semitones higher.
pub proof fn lemma_scale_position_octave(mode: Mode, k: int)
    ensures
        scale_position(mode, k + 7) == scale_position(mode, k) + 12,
{
    assert((k + 7) / 7 == k / 7 + 1);
    assert((k + 7) % 7 == k % 7);
}

/// Degree 1 is the unison: the note itself.
pub proof fn lemma_unison(root: Note, mode: Mode, note: Note)
    ensures
        degree_target(root, mode, note, 1) == note.id(),
{
}

/// Degrees seven apart are an octave apart: degree 8 is the note an octave
/// up, degree -8 the note an octave down, and so on for every degree.
pub proof fn lemma_octave(root: Note, mode: Mode, note: Note, interval: int)
    ensures
        interval >= 1 ==> degree_target(root, mode, note, interval + 7) == degree_target(
            root,
            mode,
            note,
            interval,
        ) + 12,
        interval <= -1 ==> degree_target(root, mode, note, interval - 7) == degree_target(
            root,
            mode,
            note,
            interval,
        ) - 12,
{
    let index = scale_index(root, mode, note);
    if interval >= 1 {
        lemma_scale_position_octave(mode, index + degree_steps(interval));
    }
    if interval <= -1 {
        lemma_scale_position_octave(mode, index + degree_steps(interval) - 7);
    }
}

/// Whether `note` belongs to the scale given by `root` and `mode`: its pitch
/// class lies a semitone count of the scale above the root's.
pub open spec fn in_scale(root: Note, mode: Mode, note: Note) -> bool {
    in_scale_id(root, mode, note.id())
}

/// Whether the MIDI number `id` belongs to the scale given by `root` and
/// `mode`: it lies a semitone count of the scale above the root, up to whole
/// octaves.
pub open spec fn in_scale_id(root: Note, mode: Mode, id: int) -> bool {
    exists|i: int| 0 <= i < 7 && #[trigger] semitones(mode)[i] == (id - root.id()) % 12
}

/// When the distance is one of the scale's semitone counts, `step_of` finds
/// its step.
proof fn lemma_step_of_finds(mode: Mode, distance: int, from: int, i: int)
    requires
        0 <= from <= i < 7,
        semitones(mode)[i] == distance,
    ensures
        semitones(mode)[step_of(mode, distance, from)] == distance,
    decreases 7 - from,
{
    if semitones(mode)[from] != distance {
        lemma_step_of_finds(mode, distance, from + 1, i);
    }
}

/// The MIDI numbers of `root` and `note` differ by the interval between
/// their pitch classes plus whole octaves; the whole octaves are returned.
proof fn lemma_interval_octaves(root: Note, note: Note) -> (m: int)
    ensures
        note.id() - root.id() == 12 * m + pitch_class_interval(root, note),
        (note.id() - root.id()) % 12 == pitch_class_interval(root, note),
{
    let d = pitch_class_interval(root, note);
    let q = note.id() / 12;
    let r = root.id() / 12;
    assert(note.id() == 12 * q + note.pitch_class());
    assert(root.id() == 12 * r + root.pitch_class());
    let m = if note.pitch_class() >= root.pitch_class() { q - r } else { q - r - 1 };
    assert(note.id() - root.id() == 12 * m + d);
    vstd::arithmetic::div_mod::lemma_mod_multiples_vanish(m, d, 12);
    vstd::arithmetic::div_mod::lemma_small_mod(d as nat, 12);
    m
}

/// Scale arithmetic stays in the scale: counted from a note of the scale, any
/// degree lands on a note of the scale (up to whole octaves; whether it lies
/// within the MIDI range is a separate matter), on the step
/// `degree_steps(interval)` steps away from the note's own.
pub proof fn lemma_degree_in_scale(root: Note, mode: Mode, note: Note, interval: int)
    requires
        in_scale(root, mode, note),
    ensures
        (degree_target(root, mode, note, interval) - root.id()) % 12 == semitones(mode)[(scale_index(
            root,
            mode,
            note,
        ) + degree_steps(interval)) % 7],
        in_scale_id(root, mode, degree_target(root, mode, note, interval)),
{
    lemma_semitones_shape(mode);
    let d = pitch_class_interval(root, note);
    let m = lemma_interval_octaves(root, note);
    let i = choose|i: int| 0 <= i < 7 && #[trigger] semitones(mode)[i] == (note.id() - root.id()) % 12;
    lemma_step_of_finds(mode, d, 0, i);
    lemma_step_of_range(mode, d, 0);
    let index = scale_index(root, mode, note);
    assert(semitones(mode)[index] == d);
    let k = index + degree_steps(interval);
    let t = degree_target(root, mode, note, interval);
    assert(index / 7 == 0 && index % 7 == index);
    assert(scale_position(mode, index) == d);
    assert(t - root.id() == 12 * (m + k / 7) + semitones(mode)[k % 7]);
    vstd::arithmetic::div_mod::lemma_mod_multiples_vanish(m + k / 7, semitones(mode)[k % 7], 12);
    vstd::arithmetic::div_mod::lemma_small_mod(semitones(mode)[k % 7] as nat, 12);
    assert(semitones(mode)[k % 7] == (t - root.id()) % 12);
    assert(0 <= k % 7 < 7);
}

/// Semitones from `root` up to the degree `degree` of the scale built on
/// `root` in `mode`, as `lookup_degree` counts it.
pub open spec fn degree_above_root(mode: Mode, root: Note, degree: int) -> int {
    degree_target(root, mode, root, degree) - root.id()
}

/// Counted from the scale root itself, degree `d` (1 or more) lies at the
/// scale position `d - 1`.
proof fn lemma_degree_from_root(mode: Mode, root: Note, d: int)
    requires
        d >= 1,
    ensures
        degree_above_root(mode, root, d) == scale_position(mode, d - 1),
{
    lemma_semitones_shape(mode);
    assert(pitch_class_interval(root, root) == 0);
    assert(scale_index(root, mode, root) == 0);
    assert(scale_position(mode, 0) == 0);
}

/// The major (ionian) scale rises by whole, whole, half, whole, whole, whole
/// and half steps from its root to the root an octave up.
pub proof fn lemma_major_scale_steps(root: Note)
    ensures
        degree_above_root(Mode::Ionian, root, 1) == 0,
        forall|d: int|
            1 <= d <= 7 ==> #[trigger] degree_above_root(Mode::Ionian, root, d + 1)
                - degree_above_root(Mode::Ionian, root, d) == if d == 3 || d == 7 {
                1int
            } else {
                2int
            },
{
    lemma_degree_from_root(Mode::Ionian, root, 1);
    assert forall|d: int| 1 <= d <= 7 implies #[trigger] degree_above_root(Mode::Ionian, root, d + 1)
        - degree_above_root(Mode::Ionian, root, d) == if d == 3 || d == 7 {
        1int
    } else {
        2int
    } by {
        lemma_degree_from_root(Mode::Ionian, root, d);
        lemma_degree_from_root(Mode::Ionian, root, d + 1);
        if d == 7 {
            assert(scale_position(Mode::Ionian, 7) == 12);
        }
    }
}

/// The scale positions of `mode` are those of the major scale from its step
/// `s` on, for each church mode and its starting step.
proof fn lemma_rotation_positions(mode: Mode, s: int, d: int)
    requires
        1 <= d <= 7,
        (s == 1 && mode == Mode::Dorian) || (s == 2 && mode == Mode::Phrygian) || (s == 3 && mode
            == Mode::Lydian) || (s == 4 && mode == Mode::Mixolydian) || (s == 5 && mode
            == Mode::Aeolian) || (s == 6 && mode == Mode::Locrian),
    ensures
        scale_position(mode, d - 1) == scale_position(Mode::Ionian, d - 1 + s) - scale_position(
            Mode::Ionian,
            s,
        ),
{
    let k = d - 1 + s;
    assert(0 <= d - 1 < 7);
    assert((d - 1) / 7 == 0 && (d - 1) % 7 == d - 1);
    assert(s / 7 == 0 && s % 7 == s);
    if k < 7 {
        assert(k / 7 == 0 && k % 7 == k);
    } else {
        assert(k / 7 == 1 && k % 7 == k - 7);
    }
    let m = semitones(mode);
    let major = semitones(Mode::Ionian);
    assert(major =~= seq![0, 2, 4, 5, 7, 9, 11]);
    if d == 1 {
    } else if d == 2 {
    } else if d == 3 {
    } else if d == 4 {
    } else if d == 5 {
    } else if d == 6 {
    } else {
    }
}

/// The seven church modes are the major scale started on each of its
/// degrees: dorian on the second, phrygian on the third, lydian on the
/// fourth, mixolydian on the fifth, aeolian on the sixth and locrian on the
/// seventh. Each degree of the mode lies as far above its root as the
/// matching degree of the major scale lies above that starting degree.
pub proof fn lemma_modes_of_the_major_scale(root: Note, d: int)
    requires
        1 <= d <= 7,
    ensures
        degree_above_root(Mode::Dorian, root, d) == degree_above_root(Mode::Ionian, root, d + 1)
            - degree_above_root(Mode::Ionian, root, 2),
        degree_above_root(Mode::Phrygian, root, d) == degree_above_root(Mode::Ionian, root, d + 2)
            - degree_above_root(Mode::Ionian, root, 3),
        degree_above_root(Mode::Lydian, root, d) == degree_above_root(Mode::Ionian, root, d + 3)
            - degree_above_root(Mode::Ionian, root, 4),
        degree_above_root(Mode::Mixolydian, root, d) == degree_above_root(Mode::Ionian, root, d + 4)
            - degree_above_root(Mode::Ionian, root, 5),
        degree_above_root(Mode::Aeolian, root, d) == degree_above_root(Mode::Ionian, root, d + 5)
            - degree_above_root(Mode::Ionian, root, 6),
        degree_above_root(Mode::Locrian, root, d) == degree_above_root(Mode::Ionian, root, d + 6)
            - degree_above_root(Mode::Ionian, root, 7),
{
    lemma_rotation_clause(Mode::Dorian, 1, root, d);
    lemma_rotation_clause(Mode::Phrygian, 2, root, d);
    lemma_rotation_clause(Mode::Lydian, 3, root, d);
    lemma_rotation_clause(Mode::Mixolydian, 4, root, d);
    lemma_rotation_clause(Mode::Aeolian, 5, root, d);
    lemma_rotation_clause(Mode::Locrian, 6, root, d);
}

/// One clause of `lemma_modes_of_the_major_scale`.
proof fn lemma_rotation_clause(mode: Mode, s: int, root: Note, d: int)
    requires
        1 <= d <= 7,
        (s == 1 && mode == Mode::Dorian) || (s == 2 && mode == Mode::Phrygian) || (s == 3 && mode
            == Mode::Lydian) || (s == 4 && mode == Mode::Mixolydian) || (s == 5 && mode
            == Mode::Aeolian) || (s == 6 && mode == Mode::Locrian),
    ensures
        degree_above_root(mode, root, d) == degree_above_root(Mode::Ionian, root, d + s)
            - degree_above_root(Mode::Ionian, root, 1 + s),
{
    lemma_degree_from_root(mode, root, d);
    lemma_degree_from_root(Mode::Ionian, root, d + s);
    lemma_degree_from_root(Mode::Ionian, root, 1 + s);
    lemma_rotation_positions(mode, s, d);
}

/// The harmonic minor scale is the natural minor (aeolian) scale with its
/// seventh raised by a semitone.
pub proof fn lemma_harmonic_minor(root: Note, d: int)
    requires
        1 <= d <= 7,
    ensures
        degree_above_root(Mode::HarmonicMinor, root, d) == degree_above_root(Mode::Aeolian, root, d)
            + if d == 7 {
            1int
        } else {
            0int
        },
{
    lemma_degree_from_root(Mode::HarmonicMinor, root, d);
    lemma_degree_from_root(Mode::Aeolian, root, d);
    if d == 1 {
    } else if d == 2 {
    } else if d == 3 {
    } else if d == 4 {
    } else if d == 5 {
    } else if d == 6 {
    } else {
    }
}

/// The degree that lies `steps` scale steps from a note: 1 for no step, 2
/// for one step up, -2 for one step down.
pub open spec fn degree_of_steps(steps: int) -> int {
    if steps >= 0 {
        steps + 1
    } else {
        steps - 1
    }
}

/// The degree an octave (seven scale steps) above the degree `degree`.
pub open spec fn octave_above(degree: int) -> int {
    degree_of_steps(degree_steps(degree) + 7)
}

/// The degree an octave (seven scale steps) below the degree `degree`.
pub open spec fn octave_below(degree: int) -> int {
    degree_of_steps(degree_steps(degree) - 7)
}

/// `octave_above` and `octave_below` name the same note twelve semitones
/// higher and lower, for every degree other than 0.
pub proof fn lemma_octave_degrees(root: Note, mode: Mode, note: Note, degree: int)
    requires
        degree != 0,
    ensures
        degree_target(root, mode, note, octave_above(degree)) == degree_target(root, mode, note, degree)
            + 12,
        degree_target(root, mode, note, octave_below(degree)) == degree_target(root, mode, note, degree)
            - 12,
{
    let index = scale_index(root, mode, note);
    let k = index + degree_steps(degree);
    assert(degree_steps(octave_above(degree)) == degree_steps(degree) + 7);
    assert(degree_steps(octave_below(degree)) == degree_steps(degree) - 7);
    lemma_scale_position_octave(mode, k);
    lemma_scale_position_octave(mode, k - 7);
}

} // verus!
