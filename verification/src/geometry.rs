use vstd::prelude::*;

use crate::model::{Edge, Point2D, Triangle};

verus! {

/// Whether some triangle of `triangles` carries an edge matching `edge`
/// (without regard to direction).
pub open spec fn spec_edge_shared(edge: Edge, triangles: Seq<Triangle>) -> bool {
    exists|i: int| 0 <= i < triangles.len() && (#[trigger] triangles[i]).has_edge(edge)
}

/// Whether `edge` occurs, in either direction, among the edges of any
/// triangle in `triangles`.
pub fn edge_is_shared_by_triangles(edge: &Edge, triangles: &Vec<Triangle>) -> (r: bool)
    ensures
        r == spec_edge_shared(*edge, triangles@),
{
    let mut i: usize = 0;
    while i < triangles.len()
        invariant
            0 <= i <= triangles@.len(),
            forall|j: int| 0 <= j < i ==> !(#[trigger] triangles@[j]).has_edge(*edge),
        decreases triangles@.len() - i,
    {
        let edges_of_triangle = triangles[i].edges();
        let mut k: usize = 0;
        while k < 3
            invariant
                0 <= k <= 3,
                i < triangles@.len(),
                edges_of_triangle@ == triangles@[i as int].spec_edges(),
                forall|j: int| 0 <= j < k ==> !triangles@[i as int].spec_edges()[j].same(*edge),
            decreases 3 - k,
        {
            let edge_of_triangle = edges_of_triangle[k];
            if edge_of_triangle.equals(edge) {
                return true;
            }
            if edge_of_triangle.reverse().equals(edge) {
                return true;
            }
            k += 1;
        }
        proof {
            assert(!triangles@[i as int].has_edge(*edge));
        }
        i += 1;
    }
    false
}

/// Connects a cavity-boundary edge to the freshly inserted point, forming
/// the triangle `(edge.start, edge.end, point)`.
pub fn retriangulate(edge: &Edge, point: &Point2D) -> (t: Triangle)
    ensures
        t == (Triangle { a: edge.start, b: edge.end, c: *point }),
{
    Triangle { a: edge.start, b: edge.end, c: *point }
}

} // verus!
