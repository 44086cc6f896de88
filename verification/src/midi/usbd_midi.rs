use vstd::prelude::*;

use super::velocity::Velocity;

verus! {

#[verifier::external_type_specification]
#[verifier::external_body]
pub struct ExU7(usbd_midi::data::byte::u7::U7);

/// The value a 7-bit byte of `usbd_midi` holds.
pub uninterp spec fn u7_value(value: usbd_midi::data::byte::u7::U7) -> u8;

/// Calls `u8::from` on a 7-bit byte of `usbd_midi`, which gives the value it
/// holds; every way of building a `U7` keeps it at most 0x7F.
#[verifier::external_body]
fn u7_number(value: usbd_midi::data::byte::u7::U7) -> (r: u8)
    ensures
        r == u7_value(value),
        r <= 127,
{
    u8::from(value)
}

impl From<usbd_midi::data::byte::u7::U7> for Velocity {
    /// The velocity of the same value.
    fn from(value: usbd_midi::data::byte::u7::U7) -> (r: Self)
        ensures
            r@ == u7_value(value),
    {
        let r = Velocity::from_u8(u7_number(value));
        proof {
            let c = choose|v: Velocity| v@ == u7_value(value);
            Velocity::lemma_value_injective(c, r);
        }
        r
    }
}

impl vstd::std_specs::convert::FromSpecImpl<usbd_midi::data::byte::u7::U7> for Velocity {
    open spec fn obeys_from_spec() -> bool {
        true
    }

    open spec fn from_spec(value: usbd_midi::data::byte::u7::U7) -> Self {
        choose|v: Velocity| v@ == u7_value(value)
    }
}

} // verus!
