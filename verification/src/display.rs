use vstd::prelude::*;

use crate::scales::diatonic::degree_steps;

verus! {

/// What the display is asked to show.
pub enum Action {
    /// Show the scale degrees of a chord.
    SetChord([i8; 3]),
}

/// The display: seven LEDs, one per scale degree, and a sharp LED.
#[derive(Default, Clone, Copy, PartialEq, Eq, Structural, Debug)]
pub struct State {
    pub led1: bool,
    pub led2: bool,
    pub led3: bool,
    pub led4: bool,
    pub led5: bool,
    pub led6: bool,
    pub led7: bool,
    pub led_sharp: bool,
}

impl State {
    /// The eight LEDs in order: the seven degree LEDs, then the sharp LED.
    pub open spec fn leds(self) -> Seq<bool> {
        seq![
            self.led1,
            self.led2,
            self.led3,
            self.led4,
            self.led5,
            self.led6,
            self.led7,
            self.led_sharp,
        ]
    }
}

/// Whether `state` shows the LEDs listed by `array`, in order.
pub open spec fn shows(state: State, array: [bool; 8]) -> bool {
    forall|i: int| 0 <= i < 8 ==> #[trigger] array[i] == state.leds()[i]
}

impl From<[bool; 8]> for State {
    /// The display that shows the LEDs of `array`, in order.
    fn from(array: [bool; 8]) -> (r: Self)
        ensures
            shows(r, array),
    {
        Self {
            led1: array[0],
            led2: array[1],
            led3: array[2],
            led4: array[3],
            led5: array[4],
            led6: array[5],
            led7: array[6],
            led_sharp: array[7],
        }
    }
}

impl vstd::std_specs::convert::FromSpecImpl<[bool; 8]> for State {
    open spec fn obeys_from_spec() -> bool {
        true
    }

    open spec fn from_spec(array: [bool; 8]) -> Self {
        State {
            led1: array[0],
            led2: array[1],
            led3: array[2],
            led4: array[3],
            led5: array[4],
            led6: array[5],
            led7: array[6],
            led_sharp: array[7],
        }
    }
}

impl From<State> for [bool; 8] {
    /// The LEDs of the display, in order.
    fn from(state: State) -> (r: Self)
        ensures
            shows(state, r),
    {
        proof {
            lemma_shown_array_unique(state);
        }
        let r = [
            state.led1,
            state.led2,
            state.led3,
            state.led4,
            state.led5,
            state.led6,
            state.led7,
            state.led_sharp,
        ];
        assert(shows(state, r));
        r
    }
}

impl vstd::std_specs::convert::FromSpecImpl<State> for [bool; 8] {
    open spec fn obeys_from_spec() -> bool {
        true
    }

    open spec fn from_spec(state: State) -> Self {
        choose|array: [bool; 8]| shows(state, array)
    }
}

/// Exactly one array lists the LEDs of a display.
pub proof fn lemma_shown_array_unique(state: State)
    ensures
        forall|a: [bool; 8], b: [bool; 8]| shows(state, a) && shows(state, b) ==> a == b,
{
    assert forall|a: [bool; 8], b: [bool; 8]| shows(state, a) && shows(state, b) implies a == b by {
        broadcast use vstd::array::axiom_array_ext_equal;

        assert forall|i: int| 0 <= i < 8 implies a[i] == b[i] by {
            assert(a[i] == state.leds()[i] && b[i] == state.leds()[i]);
        }
        assert(a =~= b);
    }
}

/// LED of the degree `degree`, counted from 0 for the first LED: degrees one
/// octave apart share their LED, and degree 0 lights none.
pub open spec fn degree_led(degree: int) -> int {
    degree_steps(degree) % 7
}

/// Whether the chord lights LED `led`: some of its nonzero degrees falls on it.
pub open spec fn lights(chord: [i8; 3], led: int) -> bool {
    exists|j: int| 0 <= j < 3 && #[trigger] chord[j] != 0 && degree_led(chord[j] as int) == led
}

/// The display that the action asks for.
pub fn reduce(action: Action) -> (r: State)
    ensures
        match action {
            Action::SetChord(chord) => forall|led: int|
                0 <= led < 8 ==> #[trigger] r.leds()[led] == lights(chord, led),
        },
{
    match action {
        Action::SetChord(chord) => reduce_set_chord(chord),
    }
}

/// Lights the LED of each nonzero degree of the chord.
fn reduce_set_chord(chord: [i8; 3]) -> (r: State)
    ensures
        forall|led: int| 0 <= led < 8 ==> #[trigger] r.leds()[led] == lights(chord, led),
{
    let mut state_array = [false; 8];

    let mut i: usize = 0;
    while i < 3
        invariant
            i <= 3,
            forall|led: int|
                0 <= led < 8 ==> #[trigger] state_array[led] == exists|j: int|
                    0 <= j < i && #[trigger] chord[j] != 0 && degree_led(chord[j] as int) == led,
        decreases 3 - i,
    {
        let degree = chord[i];
        if degree != 0 {
            let total_index: i8 = if degree > 0 {
                degree - 1
            } else {
                degree + 1
            };

            let index: i8 = if total_index >= 0 {
                total_index % 7
            } else {
                let rest = (-total_index) % 7;
                if rest == 0 {
                    0
                } else {
                    7 - rest
                }
            };
            assert(index == degree_led(degree as int));

            state_array[index as usize] = true;
        }
        i = i + 1;
    }

    State::from(state_array)
}

/// Reading a display back from the array of its LEDs gives the same display,
/// and the LEDs of the display read from an array are that array.
pub proof fn lemma_state_array_round_trip(state: State, array: [bool; 8])
    ensures
        <State as vstd::std_specs::convert::FromSpec<[bool; 8]>>::from_spec(
            <[bool; 8] as vstd::std_specs::convert::FromSpec<State>>::from_spec(state),
        ) == state,
        <[bool; 8] as vstd::std_specs::convert::FromSpec<State>>::from_spec(
            <State as vstd::std_specs::convert::FromSpec<[bool; 8]>>::from_spec(array),
        ) == array,
{
    lemma_shown_array_unique(state);
    let a = [
        state.led1,
        state.led2,
        state.led3,
        state.led4,
        state.led5,
        state.led6,
        state.led7,
        state.led_sharp,
    ];
    assert(shows(state, a));
    let s = <State as vstd::std_specs::convert::FromSpec<[bool; 8]>>::from_spec(array);
    lemma_shown_array_unique(s);
    assert(shows(s, array));
}

/// The sharp LED is never lit by a chord.
pub proof fn lemma_chord_never_lights_sharp(chord: [i8; 3])
    ensures
        !lights(chord, 7),
{
}

} // verus!
