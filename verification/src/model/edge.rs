use vstd::prelude::*;

use crate::model::point_2d::Point2D;

verus! {

/// A directed edge between two [`Point2D`] vertices.
///
/// Edges compare without regard to direction: two edges stand for the same
/// segment when they connect the same pair of points either way round.
#[derive(Clone, Copy, Debug)]
pub struct Edge {
    pub start: Point2D,
    pub end: Point2D,
}

impl Edge {
    /// Undirected equality: the same pair of endpoints in either order.
    pub open spec fn same(self, other: Edge) -> bool {
        (self.start == other.start && self.end == other.end) || (self.start == other.end
            && self.end == other.start)
    }

    /// Returns a new edge with the start and end points swapped.
    pub fn reverse(&self) -> (r: Edge)
        ensures
            r.start == self.end,
            r.end == self.start,
    {
        Edge { start: self.end, end: self.start }
    }

    /// Decides undirected equality with `other`.
    pub fn equals(&self, other: &Edge) -> (r: bool)
        ensures
            r == self.same(*other),
    {
        (self.start == other.start && self.end == other.end) || (self.start == other.end
            && self.end == other.start)
    }
}

} // verus!
