use vstd::prelude::*;

use crate::geometry::Rect;

verus! {

/// Something with rectangular bounds in world space.
pub trait Collision {
    /// The world-space bounds.
    spec fn bounds(&self) -> Rect;

    /// Whether the bounds overlap `other`.
    fn collision_with_rec(&self, other: &Rect) -> (r: bool)
        ensures
            r == self.bounds().overlaps_spec(*other);
}

} // verus!
