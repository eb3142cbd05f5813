use vstd::prelude::*;

use crate::model::coord::Coord;

verus! {

/// A point in space: a caller-chosen integer label and three coordinates.
#[derive(Clone, Copy, PartialEq, Eq, Structural, Debug)]
pub struct Point3D {
    pub index: i64,
    pub x: Coord,
    pub y: Coord,
    pub z: Coord,
}

} // verus!
