use vstd::prelude::*;

verus! {

/// Reduces a 16-bit sample to the 12 bits of the DAC, dropping its four
/// least significant bits.
pub fn to_12bit(x: u16) -> (r: u16)
    ensures
        r == x / 16,
        r < 4096,
{
    assert(x >> 4 == x / 16) by (bit_vector);
    x >> 4
}

} // verus!
