use vstd::prelude::*;

use crate::model::coord::Coord;

verus! {

/// A point in the plane: a caller-chosen integer label and two coordinates.
///
/// The `index` labels the point within a point set, which is how callers
/// recognise which of their points form each triangle of a result.  Two
/// points are equal when label and both coordinates agree.
#[derive(Clone, Copy, PartialEq, Eq, Structural, Debug)]
pub struct Point2D {
    pub index: i64,
    pub x: Coord,
    pub y: Coord,
}

} // verus!
