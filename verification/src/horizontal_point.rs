use vstd::prelude::*;

verus! {

/// A point in the horizontal plane: the simulation tracks entities by their
/// x (scroll axis) and z (depth axis) coordinates only.
#[derive(Copy, Clone, PartialEq, Eq, Structural, Debug)]
pub struct HorizontalPoint<T> {
    pub x: T,
    pub z: T,
}

impl<T> HorizontalPoint<T> {
    pub fn new(x: T, z: T) -> (p: Self)
        ensures
            p.x == x,
            p.z == z,
    {
        Self { x, z }
    }
}

} // verus!
