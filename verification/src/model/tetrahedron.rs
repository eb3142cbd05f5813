use vstd::prelude::*;

use crate::model::face::Face;
use crate::model::point_3d::Point3D;

verus! {

/// A tetrahedron given by four [`Point3D`] vertices.
#[derive(Clone, Copy, Debug)]
pub struct Tetrahedron {
    pub a: Point3D,
    pub b: Point3D,
    pub c: Point3D,
    pub d: Point3D,
}

impl Tetrahedron {
    pub open spec fn spec_vertices(self) -> Seq<Point3D> {
        seq![self.a, self.b, self.c, self.d]
    }

    /// Whether `p` is one of the four vertices.
    pub open spec fn has_vertex(self, p: Point3D) -> bool {
        self.a == p || self.b == p || self.c == p || self.d == p
    }

    /// The four faces, in the order `abc`, `abd`, `acd`, `bcd`.
    pub open spec fn spec_faces(self) -> Seq<Face> {
        seq![
            Face { a: self.a, b: self.b, c: self.c },
            Face { a: self.a, b: self.b, c: self.d },
            Face { a: self.a, b: self.c, c: self.d },
            Face { a: self.b, b: self.c, c: self.d },
        ]
    }

    /// Whether every vertex of `face` is a vertex of the tetrahedron.
    pub open spec fn spec_contains_face(self, face: Face) -> bool {
        self.has_vertex(face.a) && self.has_vertex(face.b) && self.has_vertex(face.c)
    }

    /// Unordered equality: every vertex of `other` occurs in `self`.
    pub open spec fn same(self, other: Tetrahedron) -> bool {
        self.has_vertex(other.a) && self.has_vertex(other.b) && self.has_vertex(other.c)
            && self.has_vertex(other.d)
    }

    pub fn faces(&self) -> (fs: [Face; 4])
        ensures
            fs@ == self.spec_faces(),
    {
        let fs = [
            Face { a: self.a, b: self.b, c: self.c },
            Face { a: self.a, b: self.b, c: self.d },
            Face { a: self.a, b: self.c, c: self.d },
            Face { a: self.b, b: self.c, c: self.d },
        ];
        proof {
            assert(fs@ =~= self.spec_faces());
        }
        fs
    }

    pub fn vertices(&self) -> (vs: [Point3D; 4])
        ensures
            vs@ == self.spec_vertices(),
    {
        let vs = [self.a, self.b, self.c, self.d];
        proof {
            assert(vs@ =~= self.spec_vertices());
        }
        vs
    }

    /// Whether every vertex of `face` is a vertex of this tetrahedron.
    pub fn contains_face(&self, face: &Face) -> (r: bool)
        ensures
            r == self.spec_contains_face(*face),
    {
        self.has_vertex_exec(&face.a) && self.has_vertex_exec(&face.b) && self.has_vertex_exec(
            &face.c,
        )
    }

    /// Decides unordered equality with `other`.
    pub fn equals(&self, other: &Tetrahedron) -> (r: bool)
        ensures
            r == self.same(*other),
    {
        self.has_vertex_exec(&other.a) && self.has_vertex_exec(&other.b) && self.has_vertex_exec(
            &other.c,
        ) && self.has_vertex_exec(&other.d)
    }

    fn has_vertex_exec(&self, p: &Point3D) -> (r: bool)
        ensures
            r == self.has_vertex(*p),
    {
        self.a == *p || self.b == *p || self.c == *p || self.d == *p
    }
}

} // verus!
