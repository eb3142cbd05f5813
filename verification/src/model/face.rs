use vstd::prelude::*;

use crate::model::point_3d::Point3D;

verus! {

/// A triangular face given by three [`Point3D`] vertices.
///
/// Faces compare as unordered triples: two faces stand for the same surface
/// patch when each vertex of one occurs among the vertices of the other.
#[derive(Clone, Copy, Debug)]
pub struct Face {
    pub a: Point3D,
    pub b: Point3D,
    pub c: Point3D,
}

impl Face {
    pub open spec fn spec_vertices(self) -> Seq<Point3D> {
        seq![self.a, self.b, self.c]
    }

    /// Whether `p` is one of the three vertices.
    pub open spec fn has_vertex(self, p: Point3D) -> bool {
        self.a == p || self.b == p || self.c == p
    }

    /// Unordered equality: every vertex of `other` occurs in `self`.
    ///
    /// For faces with three distinct vertices this is exactly equality of the
    /// vertex sets.
    pub open spec fn same(self, other: Face) -> bool {
        self.has_vertex(other.a) && self.has_vertex(other.b) && self.has_vertex(other.c)
    }

    pub fn vertices(&self) -> (vs: [Point3D; 3])
        ensures
            vs@ == self.spec_vertices(),
    {
        let vs = [self.a, self.b, self.c];
        proof {
            assert(vs@ =~= self.spec_vertices());
        }
        vs
    }

    /// Decides unordered equality with `other`.
    pub fn equals(&self, other: &Face) -> (r: bool)
        ensures
            r == self.same(*other),
    {
        (self.a == other.a || self.b == other.a || self.c == other.a) && (self.a == other.b
            || self.b == other.b || self.c == other.b) && (self.a == other.c || self.b == other.c
            || self.c == other.c)
    }
}

} // verus!
