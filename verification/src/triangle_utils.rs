use vstd::prelude::*;

use crate::model::Triangle;

verus! {

/// Whether `triangle` and `super_triangle` have at least one vertex in
/// common.
pub open spec fn spec_triangle_shares_vertex(triangle: Triangle, super_triangle: Triangle) -> bool {
    triangle.has_vertex(super_triangle.a) || triangle.has_vertex(super_triangle.b)
        || triangle.has_vertex(super_triangle.c)
}

/// Whether `triangle` carries any vertex of the enclosing super-triangle.
pub fn triangle_contains_vertex_from_super_triangle(
    triangle: &Triangle,
    super_triangle: &Triangle,
) -> (r: bool)
    ensures
        r == spec_triangle_shares_vertex(*triangle, *super_triangle),
{
    let super_triangle_vertices = super_triangle.vertices();
    let triangle_vertices = triangle.vertices();
    let mut i: usize = 0;
    while i < 3
        invariant
            0 <= i <= 3,
            super_triangle_vertices@ == super_triangle.spec_vertices(),
            triangle_vertices@ == triangle.spec_vertices(),
            forall|j: int|
                0 <= j < i ==> !triangle.has_vertex(#[trigger] super_triangle.spec_vertices()[j]),
        decreases 3 - i,
    {
        let sv = super_triangle_vertices[i];
        if sv == triangle_vertices[0] {
            return true;
        }
        if sv == triangle_vertices[1] {
            return true;
        }
        if sv == triangle_vertices[2] {
            return true;
        }
        i += 1;
    }
    false
}

/// Keeps exactly the triangles that share no vertex with the
/// super-triangle, in their original order.
///
/// This is the erasure step that ends the planar Bowyer-Watson driver: no
/// triangle of the result carries a super-triangle vertex.
pub fn remove_triangles_with_vertices_from_super_triangle(
    triangles: &Vec<Triangle>,
    super_triangle: &Triangle,
) -> (res: Vec<Triangle>)
    ensures
        res@ == triangles@.filter(|t: Triangle| !spec_triangle_shares_vertex(t, *super_triangle)),
        forall|i: int|
            0 <= i < res@.len() ==> !spec_triangle_shares_vertex(
                #[trigger] res@[i],
                *super_triangle,
            ),
        forall|i: int| 0 <= i < res@.len() ==> triangles@.contains(#[trigger] res@[i]),
{
    let ghost pred = |t: Triangle| !spec_triangle_shares_vertex(t, *super_triangle);
    let mut res: Vec<Triangle> = Vec::new();
    let mut i: usize = 0;
    while i < triangles.len()
        invariant
            0 <= i <= triangles@.len(),
            pred == (|t: Triangle| !spec_triangle_shares_vertex(t, *super_triangle)),
            res@ == triangles@.subrange(0, i as int).filter(pred),
        decreases triangles@.len() - i,
    {
        let triangle = triangles[i];
        proof {
            assert(triangles@.subrange(0, i + 1 as int) =~= triangles@.subrange(0, i as int).push(
                triangles@[i as int],
            ));
            triangles@.subrange(0, i as int).lemma_filter_push(triangles@[i as int], pred);
        }
        if !triangle_contains_vertex_from_super_triangle(&triangle, super_triangle) {
            res.push(triangle);
        }
        i += 1;
    }
    proof {
        broadcast use vstd::seq_lib::group_filter_ensures;

        assert(triangles@.subrange(0, triangles@.len() as int) =~= triangles@);
        assert forall|i: int| 0 <= i < res@.len() implies triangles@.contains(
            #[trigger] res@[i],
        ) by {
            assert(res@.contains(res@[i]));
            triangles@.lemma_filter_contains_rev(pred, res@[i]);
        }
    }
    res
}

} // verus!
