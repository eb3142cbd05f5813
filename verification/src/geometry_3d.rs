use vstd::prelude::*;

use crate::model::{Face, Point3D, Tetrahedron};

verus! {

/// Whether some tetrahedron of `tetrahedra` carries a face matching `face`
/// (as an unordered vertex triple).
pub open spec fn spec_face_shared(face: Face, tetrahedra: Seq<Tetrahedron>) -> bool {
    exists|i: int, j: int|
        0 <= i < tetrahedra.len() && 0 <= j < 4 && (#[trigger] tetrahedra[i].spec_faces()[j]).same(
            face,
        )
}

/// Whether `face` occurs among the faces of any tetrahedron in `tetrahedra`.
pub fn face_is_shared_by_tetrahedra(face: &Face, tetrahedra: &Vec<Tetrahedron>) -> (r: bool)
    ensures
        r == spec_face_shared(*face, tetrahedra@),
{
    let mut i: usize = 0;
    while i < tetrahedra.len()
        invariant
            0 <= i <= tetrahedra@.len(),
            forall|ii: int, j: int|
                0 <= ii < i && 0 <= j < 4 ==> !(#[trigger] tetrahedra@[ii].spec_faces()[j]).same(
                    *face,
                ),
        decreases tetrahedra@.len() - i,
    {
        let faces_of_tet = tetrahedra[i].faces();
        let mut k: usize = 0;
        while k < 4
            invariant
                0 <= k <= 4,
                i < tetrahedra@.len(),
                faces_of_tet@ == tetrahedra@[i as int].spec_faces(),
                forall|j: int|
                    0 <= j < k ==> !(#[trigger] tetrahedra@[i as int].spec_faces()[j]).same(*face),
            decreases 4 - k,
        {
            let face_of_tet = faces_of_tet[k];
            if face_of_tet.equals(face) {
                return true;
            }
            k += 1;
        }
        i += 1;
    }
    false
}

/// Connects a cavity-boundary face to the freshly inserted point, forming
/// the tetrahedron `(face.a, face.b, face.c, point)`.
pub fn retetrahedralize(face: &Face, point: &Point3D) -> (t: Tetrahedron)
    ensures
        t == (Tetrahedron { a: face.a, b: face.b, c: face.c, d: *point }),
{
    Tetrahedron { a: face.a, b: face.b, c: face.c, d: *point }
}

} // verus!
