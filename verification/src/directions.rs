use vstd::prelude::*;

verus! {

/// The two cube faces the mesh generator ever emits: the camera looks at the
/// world from above and in front, so the remaining four faces are invisible.
#[derive(Copy, Clone, PartialEq, Eq, Structural, Debug)]
pub enum Directions {
    Up,
    Forward,
}

/// The neighbour offset a face direction points at.
pub open spec fn spec_dir_to_offset(dir: Directions) -> (int, int, int) {
    match dir {
        Directions::Up => (0, 1, 0),
        Directions::Forward => (0, 0, 1),
    }
}

/// The neighbour offset a face direction points at.
pub fn dir_to_offset(dir: Directions) -> (r: (i32, i32, i32))
    ensures
        r.0 == spec_dir_to_offset(dir).0,
        r.1 == spec_dir_to_offset(dir).1,
        r.2 == spec_dir_to_offset(dir).2,
{
    match dir {
        Directions::Up => (0, 1, 0),
        Directions::Forward => (0, 0, 1),
    }
}

} // verus!
