use achordion_lib::wavetable::to_12bit;

#[test]
fn sixteen_bit_samples_reduce_to_twelve() {
    assert_eq!(to_12bit(0), 0);
    assert_eq!(to_12bit(0xffff), 0x0fff);
    assert_eq!(to_12bit(0x8000), 0x0800);
    assert_eq!(to_12bit(0x1234), 0x0123);
    assert_eq!(to_12bit(15), 0);
}
