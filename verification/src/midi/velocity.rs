use vstd::prelude::*;

verus! {

/// The highest velocity.
pub const MAX_VELOCITY: u8 = 127;

/// The velocity of a note, 0 up to 127.
#[derive(Copy, Clone, Hash, PartialEq, Eq, Structural, PartialOrd, Ord, Debug)]
pub struct Velocity(u8);

impl View for Velocity {
    type V = u8;

    closed spec fn view(&self) -> u8 {
        self.0
    }
}

impl Velocity {
    /// The velocity `velocity`.
    pub fn from_u8(velocity: u8) -> (r: Velocity)
        requires
            velocity <= MAX_VELOCITY,
        ensures
            r@ == velocity,
    {
        Velocity(velocity)
    }

    /// Two velocities of the same value are the same velocity.
    pub proof fn lemma_value_injective(a: Velocity, b: Velocity)
        requires
            a@ == b@,
        ensures
            a == b,
    {
    }
}

impl From<Velocity> for u8 {
    /// The value of the velocity.
    fn from(velocity: Velocity) -> (r: Self)
        ensures
            r == velocity@,
    {
        velocity.0
    }
}

impl vstd::std_specs::convert::FromSpecImpl<Velocity> for u8 {
    open spec fn obeys_from_spec() -> bool {
        true
    }

    open spec fn from_spec(velocity: Velocity) -> Self {
        velocity@
    }
}

} // verus!
