use vstd::prelude::*;

use crate::point::Point;

verus! {

/// Conversion into a [`Point`].
pub trait IntoPoint {
    fn into_point(self) -> Point;
}

impl IntoPoint for Point {
    fn into_point(self) -> (r: Point)
        ensures
            r == self,
    {
        self
    }
}

} // verus!
