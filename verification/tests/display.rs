use achordion_lib::display::{reduce, Action, State};

#[test]
fn initialize_state_from_array() {
    let state: State = [true, false, true, false, true, false, true, false].into();
    assert_eq!(
        state,
        State {
            led1: true,
            led2: false,
            led3: true,
            led4: false,
            led5: true,
            led6: false,
            led7: true,
            led_sharp: false,
        }
    )
}

#[test]
fn convert_state_to_array() {
    let array: [bool; 8] = State {
        led1: true,
        led2: false,
        led3: true,
        led4: false,
        led5: true,
        led6: false,
        led7: true,
        led_sharp: false,
    }
    .into();
    assert_eq!(array, [true, false, true, false, true, false, true, false]);
}

#[test]
fn reduce_single_tone_chord() {
    let state = reduce(Action::SetChord([1, 0, 0]));
    assert_eq!(
        state,
        State {
            led1: true,
            led2: false,
            led3: false,
            led4: false,
            led5: false,
            led6: false,
            led7: false,
            led_sharp: false,
        }
    )
}

#[test]
fn reduce_simple_fifth_chord() {
    let state = reduce(Action::SetChord([1, 3, 5]));
    assert_eq!(
        state,
        State {
            led1: true,
            led2: false,
            led3: true,
            led4: false,
            led5: true,
            led6: false,
            led7: false,
            led_sharp: false,
        }
    )
}

#[test]
fn reduce_simple_seventh_chord() {
    let state = reduce(Action::SetChord([1, 3, 7]));
    assert_eq!(
        state,
        State {
            led1: true,
            led2: false,
            led3: true,
            led4: false,
            led5: false,
            led6: false,
            led7: true,
            led_sharp: false,
        }
    )
}

#[test]
fn reduce_simple_sus_chord() {
    let state = reduce(Action::SetChord([1, 2, 5]));
    assert_eq!(
        state,
        State {
            led1: true,
            led2: true,
            led3: false,
            led4: false,
            led5: true,
            led6: false,
            led7: false,
            led_sharp: false,
        }
    )
}

#[test]
fn reduce_chord_with_negative_root() {
    let state = reduce(Action::SetChord([-2, 2, 5]));
    assert_eq!(
        state,
        State {
            led1: false,
            led2: true,
            led3: false,
            led4: false,
            led5: true,
            led6: false,
            led7: true,
            led_sharp: false,
        }
    )
}

#[test]
fn reduce_chord_spanning_multiple_octaves_positive() {
    let state = reduce(Action::SetChord([1, 5, 10]));
    assert_eq!(
        state,
        State {
            led1: true,
            led2: false,
            led3: true,
            led4: false,
            led5: true,
            led6: false,
            led7: false,
            led_sharp: false,
        }
    )
}

#[test]
fn reduce_chord_spanning_multiple_octaves_negative() {
    let state = reduce(Action::SetChord([1, -3, -13]));
    assert_eq!(
        state,
        State {
            led1: true,
            led2: false,
            led3: true,
            led4: false,
            led5: false,
            led6: true,
            led7: false,
            led_sharp: false,
        }
    )
}

#[test]
fn reduce_chord_spanning_multiple_octaves_with_unisono() {
    let state = reduce(Action::SetChord([1, 8, -15]));
    assert_eq!(
        state,
        State {
            led1: true,
            led2: false,
            led3: false,
            led4: false,
            led5: false,
            led6: false,
            led7: false,
            led_sharp: false,
        }
    )
}

#[test]
fn reduce_empty_chord() {
    let state = reduce(Action::SetChord([0, 0, 0]));
    assert_eq!(state, State::default());
}

#[test]
fn array_round_trip() {
    let array = [false, true, true, false, false, true, false, true];
    let state: State = array.into();
    let back: [bool; 8] = state.into();
    assert_eq!(back, array);
}

