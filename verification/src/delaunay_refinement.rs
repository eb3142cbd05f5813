use vstd::prelude::*;

use crate::bowyer_watson_3d;
use crate::model::{Coord, Point3D, Tetrahedron};

verus! {

/// Whether `v` may appear in a refined mesh built from `points`: it is an
/// input point or a Steiner point, whose label is at least the input count.
pub open spec fn spec_refined_vertex_ok(v: Point3D, points: Seq<Point3D>) -> bool {
    points.contains(v) || v.index >= points.len()
}

/// Whether all vertices of `t` satisfy [`spec_refined_vertex_ok`].
pub open spec fn spec_refined_tet_ok(t: Tetrahedron, points: Seq<Point3D>) -> bool {
    &&& spec_refined_vertex_ok(t.a, points)
    &&& spec_refined_vertex_ok(t.b, points)
    &&& spec_refined_vertex_ok(t.c, points)
    &&& spec_refined_vertex_ok(t.d, points)
}

/// Whether `mesh` is the outcome of a tessellation rebuild over the input
/// `points` followed by inserted circumcenters: the grown list extends the
/// input, every Steiner point's label is exactly its position in the list
/// (so the k-th insertion is labelled `points.len() + k` and labels never
/// collide), the run's super-tetrahedron is an answer of `make_super` for
/// that same list, every mesh vertex comes from the list, and no
/// super-tetrahedron corner survives.
pub open spec fn spec_refined_rebuild<G: Fn(&Vec<Point3D>) -> Tetrahedron>(
    mesh: Seq<Tetrahedron>,
    points: Seq<Point3D>,
    make_super: G,
) -> bool {
    exists|pl: &Vec<Point3D>, sup: Tetrahedron|
        {
            &&& #[trigger] call_ensures(make_super, (pl,), sup)
            &&& points.len() <= pl@.len()
            &&& pl@.subrange(0, points.len() as int) == points
            &&& forall|k: int| points.len() <= k < pl@.len() ==> (#[trigger] pl@[k]).index == k
            &&& forall|i: int|
                0 <= i < mesh.len() ==> crate::spec_tetrahedron_vertices_from(
                    #[trigger] mesh[i],
                    pl@,
                )
            &&& forall|i: int|
                0 <= i < mesh.len()
                    ==> !crate::tetrahedron_utils::spec_tetrahedron_shares_vertex(
                    #[trigger] mesh[i],
                    sup,
                )
        }
}

fn copy_points(points: &Vec<Point3D>) -> (r: Vec<Point3D>)
    ensures
        r@ == points@,
{
    let mut r: Vec<Point3D> = Vec::new();
    let mut i: usize = 0;
    while i < points.len()
        invariant
            0 <= i <= points@.len(),
            r@ == points@.subrange(0, i as int),
        decreases points@.len() - i,
    {
        r.push(points[i]);
        proof {
            assert(r@ =~= points@.subrange(0, i + 1 as int));
        }
        i += 1;
    }
    proof {
        assert(points@.subrange(0, points@.len() as int) =~= points@);
    }
    r
}

/// Improves mesh quality by repeatedly inserting the circumcenter of the
/// worst tetrahedron and rebuilding the tessellation.
///
/// The base mesh is a Bowyer-Watson tetrahedralization of `points`.  Each
/// round hands the current mesh to the caller's `pick_split` judge, which
/// either stops the loop (every tetrahedron meets the quality threshold, or
/// the mesh is empty) or answers the circumcenter coordinates of the worst
/// tetrahedron; the floating-point front end computes the radius-to-edge
/// ratios and the center.  A returned center joins the point set under the
/// next unused label, the point count, and the tessellation is rebuilt from
/// scratch over the grown set with a super-tetrahedron from `make_super`.
/// The loop runs at most `100` rounds per input point.  Whatever the judge
/// answers, every vertex of the result is an input point or a Steiner point
/// labelled past the input points, and no result tetrahedron touches the
/// super-tetrahedron of its rebuild.
pub fn delaunay_refinement<
    F: Fn(Tetrahedron, Point3D) -> bool + Copy,
    G: Fn(&Vec<Point3D>) -> Tetrahedron,
    H: Fn(&Vec<Tetrahedron>) -> Option<(Coord, Coord, Coord)>,
>(
    points: Vec<Point3D>,
    make_super: G,
    in_circumsphere: F,
    pick_split: H,
) -> (mesh: Vec<Tetrahedron>)
    requires
        points@.len() * 100 <= usize::MAX,
        points@.len() * 101 <= i64::MAX,
        forall|t: Tetrahedron, p: Point3D| #[trigger] call_requires(in_circumsphere, (t, p)),
        forall|pl: &Vec<Point3D>| #[trigger] call_requires(make_super, (pl,)),
        forall|m: &Vec<Tetrahedron>| #[trigger] call_requires(pick_split, (m,)),
    ensures
        forall|i: int|
            0 <= i < mesh@.len() ==> spec_refined_tet_ok(#[trigger] mesh@[i], points@),
        spec_refined_rebuild(mesh@, points@, make_super),
        // a judge that never asks to split adds no Steiner point: the result
        // is a tessellation of the input points alone
        (forall|a: (&Vec<Tetrahedron>,), r: Option<(Coord, Coord, Coord)>|
            call_ensures(pick_split, a, r) ==> r is None) ==> forall|i: int|
            0 <= i < mesh@.len() ==> crate::spec_tetrahedron_vertices_from(
                #[trigger] mesh@[i],
                points@,
            ),
{
    let ghost never_splits = forall|a: (&Vec<Tetrahedron>,), r: Option<(Coord, Coord, Coord)>|
        call_ensures(pick_split, a, r) ==> r is None;
    let ghost initial_points = points@;
    let mut refined_points = copy_points(&points);
    let sup = make_super(&refined_points);
    let mut mesh = bowyer_watson_3d(points, sup, in_circumsphere);
    proof {
        assert forall|i: int| 0 <= i < mesh@.len() implies spec_refined_tet_ok(
            #[trigger] mesh@[i],
            initial_points,
        ) by {
            assert(crate::spec_tetrahedron_vertices_from(mesh@[i], initial_points));
        }
        assert(refined_points@.subrange(0, initial_points.len() as int) =~= initial_points);
        assert(spec_refined_rebuild(mesh@, initial_points, make_super));
    }

    let max_iterations = 100 * refined_points.len();
    let mut it: usize = 0;
    let mut done = false;

    while it < max_iterations && !done
        invariant
            it <= max_iterations,
            max_iterations == 100 * initial_points.len(),
            initial_points.len() * 101 <= i64::MAX,
            initial_points.len() <= refined_points@.len() <= initial_points.len() + it,
            forall|t: Tetrahedron, p: Point3D| #[trigger] call_requires(in_circumsphere, (t, p)),
            forall|pl: &Vec<Point3D>| #[trigger] call_requires(make_super, (pl,)),
            forall|m: &Vec<Tetrahedron>| #[trigger] call_requires(pick_split, (m,)),
            refined_points@.subrange(0, initial_points.len() as int) == initial_points,
            forall|k: int|
                initial_points.len() <= k < refined_points@.len() ==> (
                #[trigger] refined_points@[k]).index == k,
            spec_refined_rebuild(mesh@, initial_points, make_super),
            never_splits == (forall|a: (&Vec<Tetrahedron>,), r: Option<(Coord, Coord, Coord)>|
                call_ensures(pick_split, a, r) ==> r is None),
            never_splits ==> refined_points@ == initial_points,
            never_splits ==> forall|i: int|
                0 <= i < mesh@.len() ==> crate::spec_tetrahedron_vertices_from(
                    #[trigger] mesh@[i],
                    initial_points,
                ),
            forall|i: int|
                0 <= i < refined_points@.len() ==> spec_refined_vertex_ok(
                    #[trigger] refined_points@[i],
                    initial_points,
                ),
            forall|i: int|
                0 <= i < mesh@.len() ==> spec_refined_tet_ok(#[trigger] mesh@[i], initial_points),
        decreases max_iterations - it,
    {
        it += 1;
        let verdict = pick_split(&mesh);
        match verdict {
            Option::None => {
                done = true;
            },
            Option::Some((x, y, z)) => {
                let new_point = Point3D { index: refined_points.len() as i64, x, y, z };
                let ghost pre_points = refined_points@;
                proof {
                    assert(new_point.index >= initial_points.len());
                }
                refined_points.push(new_point);
                let rebuilt_points = copy_points(&refined_points);
                let sup2 = make_super(&refined_points);
                mesh = bowyer_watson_3d(rebuilt_points, sup2, in_circumsphere);
                proof {
                    assert(refined_points@.subrange(0, initial_points.len() as int)
                        =~= pre_points.subrange(0, initial_points.len() as int));
                    assert(spec_refined_rebuild(mesh@, initial_points, make_super));
                    assert forall|i: int| 0 <= i < mesh@.len() implies spec_refined_tet_ok(
                        #[trigger] mesh@[i],
                        initial_points,
                    ) by {
                        assert(crate::spec_tetrahedron_vertices_from(mesh@[i], refined_points@));
                        let t = mesh@[i];
                        assert(refined_points@.contains(t.a));
                        assert(refined_points@.contains(t.b));
                        assert(refined_points@.contains(t.c));
                        assert(refined_points@.contains(t.d));
                        let wa = choose|w: int|
                            0 <= w < refined_points@.len() && refined_points@[w] == t.a;
                        let wb = choose|w: int|
                            0 <= w < refined_points@.len() && refined_points@[w] == t.b;
                        let wc = choose|w: int|
                            0 <= w < refined_points@.len() && refined_points@[w] == t.c;
                        let wd = choose|w: int|
                            0 <= w < refined_points@.len() && refined_points@[w] == t.d;
                        assert(spec_refined_vertex_ok(refined_points@[wa], initial_points));
                        assert(spec_refined_vertex_ok(refined_points@[wb], initial_points));
                        assert(spec_refined_vertex_ok(refined_points@[wc], initial_points));
                        assert(spec_refined_vertex_ok(refined_points@[wd], initial_points));
                    }
                }
            },
        }
    }
    mesh
}

} // verus!
