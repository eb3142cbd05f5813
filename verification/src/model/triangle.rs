use vstd::prelude::*;

use crate::model::edge::Edge;
use crate::model::point_2d::Point2D;

verus! {

/// A triangle given by three [`Point2D`] vertices.
#[derive(Clone, Copy, Debug)]
pub struct Triangle {
    pub a: Point2D,
    pub b: Point2D,
    pub c: Point2D,
}

impl Triangle {
    pub open spec fn spec_vertices(self) -> Seq<Point2D> {
        seq![self.a, self.b, self.c]
    }

    /// Whether `p` is one of the three vertices.
    pub open spec fn has_vertex(self, p: Point2D) -> bool {
        self.a == p || self.b == p || self.c == p
    }

    /// The three edges, in the order `a-b`, `b-c`, `c-a`.
    pub open spec fn spec_edges(self) -> Seq<Edge> {
        seq![
            Edge { start: self.a, end: self.b },
            Edge { start: self.b, end: self.c },
            Edge { start: self.c, end: self.a },
        ]
    }

    /// Whether `e` matches one of the triangle's edges, without regard to
    /// direction.
    pub open spec fn has_edge(self, e: Edge) -> bool {
        exists|i: int| 0 <= i < 3 && self.spec_edges()[i].same(e)
    }

    /// Unordered equality: every vertex of `other` occurs in `self`.
    pub open spec fn same(self, other: Triangle) -> bool {
        self.has_vertex(other.a) && self.has_vertex(other.b) && self.has_vertex(other.c)
    }

    pub fn vertices(&self) -> (vs: [Point2D; 3])
        ensures
            vs@ == self.spec_vertices(),
    {
        let vs = [self.a, self.b, self.c];
        proof {
            assert(vs@ =~= self.spec_vertices());
        }
        vs
    }

    pub fn edges(&self) -> (es: [Edge; 3])
        ensures
            es@ == self.spec_edges(),
    {
        let es = [
            Edge { start: self.a, end: self.b },
            Edge { start: self.b, end: self.c },
            Edge { start: self.c, end: self.a },
        ];
        proof {
            assert(es@ =~= self.spec_edges());
        }
        es
    }

    /// Decides unordered equality with `other`.
    pub fn equals(&self, other: &Triangle) -> (r: bool)
        ensures
            r == self.same(*other),
    {
        (self.a == other.a || self.b == other.a || self.c == other.a) && (self.a == other.b
            || self.b == other.b || self.c == other.b) && (self.a == other.c || self.b == other.c
            || self.c == other.c)
    }
}

} // verus!
