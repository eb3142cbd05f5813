use vstd::prelude::*;

verus! {

/// One opaque coordinate.
///
/// The meshing core never interprets a coordinate: it stores it, copies it
/// and compares it for equality, nothing else.  All numeric work (distances,
/// circumballs, interpolation) happens on the caller's side of the interface,
/// and a caller working with floating-point coordinates keeps the bit pattern
/// of each value here.
#[derive(Clone, Copy, PartialEq, Eq, Structural, Debug, Hash)]
pub struct Coord {
    pub bits: u64,
}

} // verus!
