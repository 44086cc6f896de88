use achordion_lib::probe::{ProbeDetector, ProbeGenerator, PROBE_SEQUENCE};

#[test]
fn generate_sequence() {
    let sequence = [true, false, false];
    let mut generator = ProbeGenerator::new(&sequence);

    assert_eq!(generator.read(), true);
    assert_eq!(generator.read(), false);
    assert_eq!(generator.read(), false);
    assert_eq!(generator.read(), true);
}

#[test]
fn fully_matching_sequence() {
    const SEQUENCE: [bool; 5] = [true, true, false, false, false];
    const SEQUENCE_LEN: usize = SEQUENCE.len();
    let mut detector = ProbeDetector::<SEQUENCE_LEN>::new(&SEQUENCE);

    detector.write(SEQUENCE[0]);
    detector.write(SEQUENCE[1]);
    detector.write(SEQUENCE[2]);
    detector.write(SEQUENCE[3]);
    detector.write(SEQUENCE[4]);

    assert!(detector.detected());
}

#[test]
fn partially_matching_sequence() {
    const SEQUENCE: [bool; 5] = [true, true, false, false, false];
    const SEQUENCE_LEN: usize = SEQUENCE.len();
    let mut detector = ProbeDetector::<SEQUENCE_LEN>::new(&SEQUENCE);

    detector.write(SEQUENCE[0]);
    detector.write(!SEQUENCE[1]);
    detector.write(SEQUENCE[2]);
    detector.write(SEQUENCE[3]);
    detector.write(SEQUENCE[4]);

    assert!(detector.detected());
}

#[test]
fn unmatching_sequence() {
    const SEQUENCE: [bool; 7] = [true, false, true, false, true, false, false];
    const SEQUENCE_LEN: usize = SEQUENCE.len();
    let mut detector = ProbeDetector::<SEQUENCE_LEN>::new(&SEQUENCE);

    detector.write(!SEQUENCE[0]);
    detector.write(!SEQUENCE[1]);
    detector.write(!SEQUENCE[2]);
    detector.write(!SEQUENCE[3]);
    detector.write(SEQUENCE[4]);
    detector.write(SEQUENCE[5]);
    detector.write(SEQUENCE[6]);

    assert!(!detector.detected());
}

#[test]
fn three_mismatches_are_not_tolerated() {
    const SEQUENCE: [bool; 5] = [true, true, false, false, false];
    let mut detector = ProbeDetector::<5>::new(&SEQUENCE);

    detector.write(!SEQUENCE[0]);
    detector.write(!SEQUENCE[1]);
    detector.write(!SEQUENCE[2]);
    detector.write(SEQUENCE[3]);
    detector.write(SEQUENCE[4]);

    assert!(!detector.detected());
}

#[test]
fn verdict_is_kept_until_the_queue_is_full_again() {
    const SEQUENCE: [bool; 5] = [true, true, true, false, true];
    let mut detector = ProbeDetector::<5>::new(&SEQUENCE);

    assert!(!detector.detected());
    for value in SEQUENCE.iter() {
        detector.write(*value);
    }
    assert!(detector.detected());

    // Part way through a wrong period the earlier verdict stands.
    detector.write(false);
    detector.write(false);
    assert!(detector.detected());
    detector.write(false);
    detector.write(false);
    detector.write(true);
    assert!(!detector.detected());
}

#[test]
fn generated_probe_sequence_is_detected() {

    let mut generator = ProbeGenerator::new(&PROBE_SEQUENCE);
    let mut detector = ProbeDetector::<32>::new(&PROBE_SEQUENCE);
    for _ in 0..PROBE_SEQUENCE.len() {
        detector.write(generator.read());
    }
    assert!(detector.detected());
}

#[test]
fn own_generator_is_detected_after_several_periods() {
    let mut generator = ProbeGenerator::new(&PROBE_SEQUENCE);
    let mut detector = ProbeDetector::<32>::new(&PROBE_SEQUENCE);

    for period in 0..3 {
        for i in 0..32 {
            detector.write(generator.read());
            if i % 5 == 0 {
                detector.detected();
            }
        }
        assert!(detector.detected(), "period {}", period);
    }
}

#[test]
fn only_the_last_window_decides() {
    let sequence = [true, false, true, true];
    let mut detector = ProbeDetector::<4>::new(&sequence);

    for value in sequence {
        detector.write(value);
    }
    assert!(detector.detected());

    // three mismatches in the second window
    for value in [false, true, false, true] {
        detector.write(value);
        detector.detected();
    }
    assert!(!detector.detected());

    // two mismatches in the third window are tolerated
    for value in [false, true, true, true] {
        detector.write(value);
    }
    assert!(detector.detected());
}
