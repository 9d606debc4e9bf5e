use vstd::prelude::*;

verus! {

/// The editing position. Directional keys move it freely, possibly out of
/// the grid; the controller wraps it back into `[0, w) x [0, h)` with the
/// same Euclidean rule the grid uses, after every input step.
#[derive(Clone, Copy)]
pub struct Cursor {
    pub x: i64,
    pub y: i64,
}

impl Cursor {
    pub open spec fn in_bounds(self, w: int, h: int) -> bool {
        0 <= self.x < w && 0 <= self.y < h
    }
}

} // verus!
