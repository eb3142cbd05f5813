//! Mesh generation with a verified combinatorial core.
//!
//! The library builds triangle and tetrahedral meshes: Bowyer-Watson Delaunay
//! tessellation in two and three dimensions, structured voxel and octree
//! fillers, marching-cubes isosurface extraction, advancing-front volume
//! meshing, Delaunay refinement, boundary-surface extraction and text or
//! binary exporters.
//!
//! Verus cannot reason about floating-point arithmetic, so the crate is split
//! along that line.  Everything combinatorial is verified here: which
//! simplices a generator emits, how cavities are re-triangulated, how vertex
//! labels are assigned and shared, which faces lie on a boundary, and the
//! exact layout of exported text and bytes.  Numeric judgements (circumball
//! membership, point placement, interpolation) enter through caller-supplied
//! closures, and coordinates travel through the core as opaque payloads that
//! are stored and compared but never interpreted.  A floating-point front end
//! can wrap these entry points by packing each coordinate's bit pattern into a
//! [`Coord`].

pub mod advancing_front;
pub mod delaunay_refinement;
pub mod error;
pub mod export;
pub mod geometry;
pub mod geometry_3d;
pub mod marching_cubes;
mod model;
pub mod numtext;
pub mod octree;
pub mod pipeline;
pub mod tetrahedron_utils;
pub mod triangle_utils;
pub mod voxel_mesh;

use geometry::{edge_is_shared_by_triangles, retriangulate};
use geometry_3d::{face_is_shared_by_tetrahedra, retetrahedralize};
use tetrahedron_utils::spec_tetrahedron_shares_vertex;
use triangle_utils::spec_triangle_shares_vertex;

pub use error::MeshingError;
pub use model::{Coord, Edge, Face, Point2D, Point3D, Tetrahedron, Triangle};
pub use tetrahedron_utils::{
    remove_tetrahedra_with_vertices_from_super_tetrahedron,
    tetrahedron_contains_vertex_from_super_tetrahedron,
};
pub use triangle_utils::{
    remove_triangles_with_vertices_from_super_triangle,
    triangle_contains_vertex_from_super_triangle,
};

use vstd::prelude::*;

verus! {

/// Whether `v` may appear in a planar tessellation built from `points` under
/// the super-triangle `st`: it is an input point or a super-triangle corner.
pub open spec fn spec_vertex_allowed_2d(v: Point2D, points: Seq<Point2D>, st: Triangle) -> bool {
    points.contains(v) || v == st.a || v == st.b || v == st.c
}

/// Whether every vertex of `t` is an input point or a super-triangle corner.
pub open spec fn spec_triangle_allowed_2d(t: Triangle, points: Seq<Point2D>, st: Triangle) -> bool {
    spec_vertex_allowed_2d(t.a, points, st) && spec_vertex_allowed_2d(t.b, points, st)
        && spec_vertex_allowed_2d(t.c, points, st)
}

/// Whether both endpoints of `e` are input points or super-triangle corners.
pub open spec fn spec_edge_allowed_2d(e: Edge, points: Seq<Point2D>, st: Triangle) -> bool {
    spec_vertex_allowed_2d(e.start, points, st) && spec_vertex_allowed_2d(e.end, points, st)
}

/// Whether every vertex of `t` is one of the input points.
pub open spec fn spec_triangle_vertices_from(t: Triangle, points: Seq<Point2D>) -> bool {
    points.contains(t.a) && points.contains(t.b) && points.contains(t.c)
}

/// Removes every triangle that matches `bad` as an unordered vertex triple,
/// keeping the rest in order.
fn remove_matching_triangles(triangulation: Vec<Triangle>, bad: &Triangle) -> (res: Vec<Triangle>)
    ensures
        res@ == triangulation@.filter(|x: Triangle| !x.same(*bad)),
        forall|i: int| 0 <= i < res@.len() ==> triangulation@.contains(#[trigger] res@[i]),
{
    let ghost pred = |x: Triangle| !x.same(*bad);
    let mut res: Vec<Triangle> = Vec::new();
    let mut i: usize = 0;
    while i < triangulation.len()
        invariant
            0 <= i <= triangulation@.len(),
            pred == (|x: Triangle| !x.same(*bad)),
            res@ == triangulation@.subrange(0, i as int).filter(pred),
        decreases triangulation@.len() - i,
    {
        let t = triangulation[i];
        proof {
            assert(triangulation@.subrange(0, i + 1 as int) =~= triangulation@.subrange(
                0,
                i as int,
            ).push(triangulation@[i as int]));
            triangulation@.subrange(0, i as int).lemma_filter_push(triangulation@[i as int], pred);
        }
        if !t.equals(bad) {
            res.push(t);
        }
        i += 1;
    }
    proof {
        assert(triangulation@.subrange(0, triangulation@.len() as int) =~= triangulation@);
        assert forall|k: int| 0 <= k < res@.len() implies triangulation@.contains(
            #[trigger] res@[k],
        ) by {
            assert(res@.contains(res@[k]));
            triangulation@.lemma_filter_contains_rev(pred, res@[k]);
        }
    }
    res
}

/// Computes the Delaunay triangulation of a set of points with the
/// Bowyer-Watson incremental insertion algorithm.
///
/// The caller supplies the enclosing `super_triangle` and the circumcircle
/// membership test `in_circumcircle`, which decides whether a point lies in
/// or on the circumscribed circle of a triangle; a floating-point front end
/// computes both from the actual coordinates.  The driver inserts the points
/// in their given order: it marks every triangle whose circumcircle holds
/// the new point, removes that cavity, and reconnects the cavity-boundary
/// edges to the point.  Whatever the membership test answers, the result
/// never carries a super-triangle corner, and every vertex of every returned
/// triangle is one of the input points.
///
/// # Errors
///
/// Returns [`MeshingError::EmptyInput`] if `points` is empty, and
/// [`MeshingError::InsufficientPoints`] if fewer than 3 points are given.
pub fn bowyer_watson<F: Fn(Triangle, Point2D) -> bool>(
    points: Vec<Point2D>,
    super_triangle: Triangle,
    in_circumcircle: F,
) -> (result: Result<Vec<Triangle>, MeshingError>)
    requires
        forall|t: Triangle, p: Point2D| #[trigger] call_requires(in_circumcircle, (t, p)),
    ensures
        result is Ok <==> points@.len() >= 3,
        points@.len() == 0 ==> result == Err::<Vec<Triangle>, MeshingError>(
            MeshingError::EmptyInput,
        ),
        1 <= points@.len() < 3 ==> result == Err::<Vec<Triangle>, MeshingError>(
            MeshingError::InsufficientPoints(points@.len() as usize),
        ),
        result matches Ok(tris) ==> forall|i: int|
            0 <= i < tris@.len() ==> !triangle_utils::spec_triangle_shares_vertex(
                #[trigger] tris@[i],
                super_triangle,
            ),
        result matches Ok(tris) ==> forall|i: int|
            0 <= i < tris@.len() ==> spec_triangle_vertices_from(#[trigger] tris@[i], points@),
        (forall|a: (Triangle, Point2D), r: bool| call_ensures(in_circumcircle, a, r) ==> !r)
            ==> (result matches Ok(tris) ==> tris@.len() == 0),
{
    let ghost rejects_all = forall|a: (Triangle, Point2D), r: bool|
        call_ensures(in_circumcircle, a, r) ==> !r;
    if points.len() == 0 {
        return Err(MeshingError::EmptyInput);
    }
    if points.len() < 3 {
        return Err(MeshingError::InsufficientPoints(points.len()));
    }
    let mut triangulation: Vec<Triangle> = Vec::new();
    triangulation.push(super_triangle);

    let mut pi: usize = 0;
    while pi < points.len()
        invariant
            forall|t: Triangle, p: Point2D| #[trigger] call_requires(in_circumcircle, (t, p)),
            rejects_all == (forall|a: (Triangle, Point2D), r: bool|
                call_ensures(in_circumcircle, a, r) ==> !r),
            rejects_all ==> triangulation@ =~= seq![super_triangle],
            forall|i: int|
                0 <= i < triangulation@.len() ==> spec_triangle_allowed_2d(
                    #[trigger] triangulation@[i],
                    points@,
                    super_triangle,
                ),
        decreases points@.len() - pi,
    {
        let point = points[pi];

        // Mark every triangle whose circumcircle holds the new point.
        let mut bad_triangles: Vec<Triangle> = Vec::new();
        let mut ti: usize = 0;
        while ti < triangulation.len()
            invariant
                forall|t: Triangle, p: Point2D| #[trigger] call_requires(in_circumcircle, (t, p)),
                rejects_all == (forall|a: (Triangle, Point2D), r: bool|
                    call_ensures(in_circumcircle, a, r) ==> !r),
                rejects_all ==> bad_triangles@.len() == 0,
                forall|i: int|
                    0 <= i < triangulation@.len() ==> spec_triangle_allowed_2d(
                        #[trigger] triangulation@[i],
                        points@,
                        super_triangle,
                    ),
                forall|i: int|
                    0 <= i < bad_triangles@.len() ==> spec_triangle_allowed_2d(
                        #[trigger] bad_triangles@[i],
                        points@,
                        super_triangle,
                    ),
            decreases triangulation@.len() - ti,
        {
            if in_circumcircle(triangulation[ti], point) {
                bad_triangles.push(triangulation[ti]);
            }
            ti += 1;
        }

        // An edge of a cavity triangle lies on the cavity boundary when no
        // other cavity triangle carries it.
        let mut polygon: Vec<Edge> = Vec::new();
        let mut bi: usize = 0;
        while bi < bad_triangles.len()
            invariant
                rejects_all ==> bad_triangles@.len() == 0,
                rejects_all ==> polygon@.len() == 0,
                forall|i: int|
                    0 <= i < bad_triangles@.len() ==> spec_triangle_allowed_2d(
                        #[trigger] bad_triangles@[i],
                        points@,
                        super_triangle,
                    ),
                forall|i: int|
                    0 <= i < polygon@.len() ==> spec_edge_allowed_2d(
                        #[trigger] polygon@[i],
                        points@,
                        super_triangle,
                    ),
            decreases bad_triangles@.len() - bi,
        {
            let triangle = bad_triangles[bi];
            let edges = triangle.edges();
            let mut others: Vec<Triangle> = Vec::new();
            let mut oi: usize = 0;
            while oi < bad_triangles.len()
                invariant
                    0 <= bi < bad_triangles@.len(),
                    triangle == bad_triangles@[bi as int],
                decreases bad_triangles@.len() - oi,
            {
                if !bad_triangles[oi].equals(&triangle) {
                    others.push(bad_triangles[oi]);
                }
                oi += 1;
            }
            let mut ei: usize = 0;
            while ei < 3
                invariant
                    0 <= bi < bad_triangles@.len(),
                    triangle == bad_triangles@[bi as int],
                    edges@ == triangle.spec_edges(),
                    forall|i: int|
                        0 <= i < bad_triangles@.len() ==> spec_triangle_allowed_2d(
                            #[trigger] bad_triangles@[i],
                            points@,
                            super_triangle,
                        ),
                    forall|i: int|
                        0 <= i < polygon@.len() ==> spec_edge_allowed_2d(
                            #[trigger] polygon@[i],
                            points@,
                            super_triangle,
                        ),
                decreases 3 - ei,
            {
                let edge = edges[ei];
                proof {
                    assert(spec_triangle_allowed_2d(triangle, points@, super_triangle));
                    assert(spec_edge_allowed_2d(edge, points@, super_triangle));
                }
                if !edge_is_shared_by_triangles(&edge, &others) {
                    polygon.push(edge);
                }
                ei += 1;
            }
            bi += 1;
        }

        // Remove the cavity.
        let mut bd: usize = 0;
        while bd < bad_triangles.len()
            invariant
                rejects_all ==> bad_triangles@.len() == 0,
                rejects_all ==> triangulation@ =~= seq![super_triangle],
                forall|i: int|
                    0 <= i < triangulation@.len() ==> spec_triangle_allowed_2d(
                        #[trigger] triangulation@[i],
                        points@,
                        super_triangle,
                    ),
            decreases bad_triangles@.len() - bd,
        {
            let bad = bad_triangles[bd];
            triangulation = remove_matching_triangles(triangulation, &bad);
            bd += 1;
        }

        // Reconnect each boundary edge to the new point.
        let mut ri: usize = 0;
        while ri < polygon.len()
            invariant
                0 <= pi < points@.len(),
                point == points@[pi as int],
                rejects_all ==> polygon@.len() == 0,
                rejects_all ==> triangulation@ =~= seq![super_triangle],
                forall|i: int|
                    0 <= i < polygon@.len() ==> spec_edge_allowed_2d(
                        #[trigger] polygon@[i],
                        points@,
                        super_triangle,
                    ),
                forall|i: int|
                    0 <= i < triangulation@.len() ==> spec_triangle_allowed_2d(
                        #[trigger] triangulation@[i],
                        points@,
                        super_triangle,
                    ),
            decreases polygon@.len() - ri,
        {
            let new_tri = retriangulate(&polygon[ri], &point);
            triangulation.push(new_tri);
            ri += 1;
        }
        pi += 1;
    }

    let result = remove_triangles_with_vertices_from_super_triangle(
        &triangulation,
        &super_triangle,
    );
    proof {
        if rejects_all {
            assert(super_triangle.has_vertex(super_triangle.a));
            assert(spec_triangle_shares_vertex(super_triangle, super_triangle));
            assert(result@.len() == 0) by {
                if result@.len() > 0 {
                    assert(triangulation@.contains(result@[0]));
                    assert(result@[0] == super_triangle);
                    assert(!spec_triangle_shares_vertex(result@[0], super_triangle));
                }
            }
        }
        assert forall|i: int| 0 <= i < result@.len() implies spec_triangle_vertices_from(
            #[trigger] result@[i],
            points@,
        ) by {
            assert(triangulation@.contains(result@[i]));
            let j = choose|j: int|
                0 <= j < triangulation@.len() && triangulation@[j] == result@[i];
            assert(spec_triangle_allowed_2d(triangulation@[j], points@, super_triangle));
            assert(!spec_triangle_shares_vertex(result@[i], super_triangle));
        }
    }
    Ok(result)
}

/// Whether `v` may appear in a tessellation built from `points` under the
/// super-tetrahedron `st`: it is an input point or a super-tetrahedron
/// corner.
pub open spec fn spec_vertex_allowed_3d(v: Point3D, points: Seq<Point3D>, st: Tetrahedron) -> bool {
    points.contains(v) || v == st.a || v == st.b || v == st.c || v == st.d
}

/// Whether every vertex of `t` is an input point or a super-tetrahedron
/// corner.
pub open spec fn spec_tetrahedron_allowed_3d(
    t: Tetrahedron,
    points: Seq<Point3D>,
    st: Tetrahedron,
) -> bool {
    spec_vertex_allowed_3d(t.a, points, st) && spec_vertex_allowed_3d(t.b, points, st)
        && spec_vertex_allowed_3d(t.c, points, st) && spec_vertex_allowed_3d(t.d, points, st)
}

/// Whether every vertex of `f` is an input point or a super-tetrahedron
/// corner.
pub open spec fn spec_face_allowed_3d(f: Face, points: Seq<Point3D>, st: Tetrahedron) -> bool {
    spec_vertex_allowed_3d(f.a, points, st) && spec_vertex_allowed_3d(f.b, points, st)
        && spec_vertex_allowed_3d(f.c, points, st)
}

/// Whether `v` is one of the super-tetrahedron's corners.
pub open spec fn spec_is_super_corner(v: Point3D, st: Tetrahedron) -> bool {
    v == st.a || v == st.b || v == st.c || v == st.d
}

/// How many of the tetrahedron's four vertex slots hold a super-tetrahedron
/// corner.
pub open spec fn spec_super_slots(t: Tetrahedron, st: Tetrahedron) -> int {
    (if spec_is_super_corner(t.a, st) {
        1int
    } else {
        0int
    }) + (if spec_is_super_corner(t.b, st) {
        1int
    } else {
        0int
    }) + (if spec_is_super_corner(t.c, st) {
        1int
    } else {
        0int
    }) + (if spec_is_super_corner(t.d, st) {
        1int
    } else {
        0int
    })
}

/// How many of the face's three vertex slots hold a super-tetrahedron
/// corner.
pub open spec fn spec_super_slots_face(f: Face, st: Tetrahedron) -> int {
    (if spec_is_super_corner(f.a, st) {
        1int
    } else {
        0int
    }) + (if spec_is_super_corner(f.b, st) {
        1int
    } else {
        0int
    }) + (if spec_is_super_corner(f.c, st) {
        1int
    } else {
        0int
    })
}

/// Whether every vertex of `t` is one of the input points.
pub open spec fn spec_tetrahedron_vertices_from(t: Tetrahedron, points: Seq<Point3D>) -> bool {
    points.contains(t.a) && points.contains(t.b) && points.contains(t.c) && points.contains(t.d)
}

/// Removes every tetrahedron that matches `bad` as an unordered vertex
/// quadruple, keeping the rest in order.
fn remove_matching_tetrahedra(
    tetrahedralization: Vec<Tetrahedron>,
    bad: &Tetrahedron,
) -> (res: Vec<Tetrahedron>)
    ensures
        res@ == tetrahedralization@.filter(|x: Tetrahedron| !x.same(*bad)),
        forall|i: int| 0 <= i < res@.len() ==> tetrahedralization@.contains(#[trigger] res@[i]),
{
    let ghost pred = |x: Tetrahedron| !x.same(*bad);
    let mut res: Vec<Tetrahedron> = Vec::new();
    let mut i: usize = 0;
    while i < tetrahedralization.len()
        invariant
            0 <= i <= tetrahedralization@.len(),
            pred == (|x: Tetrahedron| !x.same(*bad)),
            res@ == tetrahedralization@.subrange(0, i as int).filter(pred),
        decreases tetrahedralization@.len() - i,
    {
        let t = tetrahedralization[i];
        proof {
            assert(tetrahedralization@.subrange(0, i + 1 as int) =~= tetrahedralization@.subrange(
                0,
                i as int,
            ).push(tetrahedralization@[i as int]));
            tetrahedralization@.subrange(0, i as int).lemma_filter_push(
                tetrahedralization@[i as int],
                pred,
            );
        }
        if !t.equals(bad) {
            res.push(t);
        }
        i += 1;
    }
    proof {
        assert(tetrahedralization@.subrange(0, tetrahedralization@.len() as int)
            =~= tetrahedralization@);
        assert forall|k: int| 0 <= k < res@.len() implies tetrahedralization@.contains(
            #[trigger] res@[k],
        ) by {
            assert(res@.contains(res@[k]));
            tetrahedralization@.lemma_filter_contains_rev(pred, res@[k]);
        }
    }
    res
}

/// Computes the Delaunay tetrahedralization of a set of points with the
/// Bowyer-Watson incremental insertion algorithm.
///
/// The caller supplies the enclosing `super_tetrahedron` and the circumsphere
/// membership test `in_circumsphere`; a floating-point front end computes
/// both from the actual coordinates.  Whatever the membership test answers,
/// the result never carries a super-tetrahedron corner, and every vertex of
/// every returned tetrahedron is one of the input points.  There is no
/// minimum point count: with fewer than four points every tetrahedron still
/// touches the super-tetrahedron and the result is empty.
pub fn bowyer_watson_3d<F: Fn(Tetrahedron, Point3D) -> bool>(
    points: Vec<Point3D>,
    super_tetrahedron: Tetrahedron,
    in_circumsphere: F,
) -> (result: Vec<Tetrahedron>)
    requires
        forall|t: Tetrahedron, p: Point3D| #[trigger] call_requires(in_circumsphere, (t, p)),
    ensures
        forall|i: int|
            0 <= i < result@.len() ==> !spec_tetrahedron_shares_vertex(
                #[trigger] result@[i],
                super_tetrahedron,
            ),
        forall|i: int|
            0 <= i < result@.len() ==> spec_tetrahedron_vertices_from(
                #[trigger] result@[i],
                points@,
            ),
        (forall|a: (Tetrahedron, Point3D), r: bool| call_ensures(in_circumsphere, a, r) ==> !r)
            ==> result@.len() == 0,
        // with fewer than four points every tetrahedron keeps a
        // super-tetrahedron corner, so the erasure leaves nothing
        points@.len() < 4 ==> result@.len() == 0,
{
    let ghost rejects_all = forall|a: (Tetrahedron, Point3D), r: bool|
        call_ensures(in_circumsphere, a, r) ==> !r;
    let mut tetrahedralization: Vec<Tetrahedron> = Vec::new();
    tetrahedralization.push(super_tetrahedron);
    proof {
        assert(spec_super_slots(super_tetrahedron, super_tetrahedron) == 4);
    }

    let mut pi: usize = 0;
    while pi < points.len()
        invariant
            0 <= pi <= points@.len(),
            forall|t: Tetrahedron, p: Point3D| #[trigger] call_requires(in_circumsphere, (t, p)),
            rejects_all == (forall|a: (Tetrahedron, Point3D), r: bool|
                call_ensures(in_circumsphere, a, r) ==> !r),
            rejects_all ==> tetrahedralization@ =~= seq![super_tetrahedron],
            forall|i: int|
                0 <= i < tetrahedralization@.len() ==> spec_super_slots(
                    #[trigger] tetrahedralization@[i],
                    super_tetrahedron,
                ) >= 4 - pi,
            forall|i: int|
                0 <= i < tetrahedralization@.len() ==> spec_tetrahedron_allowed_3d(
                    #[trigger] tetrahedralization@[i],
                    points@,
                    super_tetrahedron,
                ),
        decreases points@.len() - pi,
    {
        let point = points[pi];

        // Mark every tetrahedron whose circumsphere holds the new point.
        let mut bad_tetrahedra: Vec<Tetrahedron> = Vec::new();
        let mut ti: usize = 0;
        while ti < tetrahedralization.len()
            invariant
                forall|t: Tetrahedron, p: Point3D|
                    #[trigger] call_requires(in_circumsphere, (t, p)),
                rejects_all == (forall|a: (Tetrahedron, Point3D), r: bool|
                    call_ensures(in_circumsphere, a, r) ==> !r),
                rejects_all ==> bad_tetrahedra@.len() == 0,
                forall|i: int|
                    0 <= i < tetrahedralization@.len() ==> spec_super_slots(
                        #[trigger] tetrahedralization@[i],
                        super_tetrahedron,
                    ) >= 4 - pi,
                forall|i: int|
                    0 <= i < bad_tetrahedra@.len() ==> spec_super_slots(
                        #[trigger] bad_tetrahedra@[i],
                        super_tetrahedron,
                    ) >= 4 - pi,
                forall|i: int|
                    0 <= i < tetrahedralization@.len() ==> spec_tetrahedron_allowed_3d(
                        #[trigger] tetrahedralization@[i],
                        points@,
                        super_tetrahedron,
                    ),
                forall|i: int|
                    0 <= i < bad_tetrahedra@.len() ==> spec_tetrahedron_allowed_3d(
                        #[trigger] bad_tetrahedra@[i],
                        points@,
                        super_tetrahedron,
                    ),
            decreases tetrahedralization@.len() - ti,
        {
            if in_circumsphere(tetrahedralization[ti], point) {
                bad_tetrahedra.push(tetrahedralization[ti]);
            }
            ti += 1;
        }

        // A face of a cavity tetrahedron lies on the cavity boundary when no
        // other cavity tetrahedron carries it.
        let mut boundary_faces: Vec<Face> = Vec::new();
        let mut bi: usize = 0;
        while bi < bad_tetrahedra.len()
            invariant
                rejects_all ==> bad_tetrahedra@.len() == 0,
                rejects_all ==> boundary_faces@.len() == 0,
                forall|i: int|
                    0 <= i < bad_tetrahedra@.len() ==> spec_super_slots(
                        #[trigger] bad_tetrahedra@[i],
                        super_tetrahedron,
                    ) >= 4 - pi,
                forall|i: int|
                    0 <= i < boundary_faces@.len() ==> spec_super_slots_face(
                        #[trigger] boundary_faces@[i],
                        super_tetrahedron,
                    ) >= 3 - pi,
                forall|i: int|
                    0 <= i < bad_tetrahedra@.len() ==> spec_tetrahedron_allowed_3d(
                        #[trigger] bad_tetrahedra@[i],
                        points@,
                        super_tetrahedron,
                    ),
                forall|i: int|
                    0 <= i < boundary_faces@.len() ==> spec_face_allowed_3d(
                        #[trigger] boundary_faces@[i],
                        points@,
                        super_tetrahedron,
                    ),
            decreases bad_tetrahedra@.len() - bi,
        {
            let tet = bad_tetrahedra[bi];
            let faces = tet.faces();
            let mut others: Vec<Tetrahedron> = Vec::new();
            let mut oi: usize = 0;
            while oi < bad_tetrahedra.len()
                invariant
                    0 <= bi < bad_tetrahedra@.len(),
                    tet == bad_tetrahedra@[bi as int],
                decreases bad_tetrahedra@.len() - oi,
            {
                if !bad_tetrahedra[oi].equals(&tet) {
                    others.push(bad_tetrahedra[oi]);
                }
                oi += 1;
            }
            let mut fi: usize = 0;
            while fi < 4
                invariant
                    0 <= bi < bad_tetrahedra@.len(),
                    tet == bad_tetrahedra@[bi as int],
                    faces@ == tet.spec_faces(),
                    forall|i: int|
                        0 <= i < bad_tetrahedra@.len() ==> spec_super_slots(
                            #[trigger] bad_tetrahedra@[i],
                            super_tetrahedron,
                        ) >= 4 - pi,
                    forall|i: int|
                        0 <= i < boundary_faces@.len() ==> spec_super_slots_face(
                            #[trigger] boundary_faces@[i],
                            super_tetrahedron,
                        ) >= 3 - pi,
                    forall|i: int|
                        0 <= i < bad_tetrahedra@.len() ==> spec_tetrahedron_allowed_3d(
                            #[trigger] bad_tetrahedra@[i],
                            points@,
                            super_tetrahedron,
                        ),
                    forall|i: int|
                        0 <= i < boundary_faces@.len() ==> spec_face_allowed_3d(
                            #[trigger] boundary_faces@[i],
                            points@,
                            super_tetrahedron,
                        ),
                decreases 4 - fi,
            {
                let face = faces[fi];
                proof {
                    assert(spec_tetrahedron_allowed_3d(tet, points@, super_tetrahedron));
                    assert(spec_face_allowed_3d(face, points@, super_tetrahedron));
                    assert(spec_super_slots(tet, super_tetrahedron) >= 4 - pi);
                    assert(spec_super_slots_face(face, super_tetrahedron) >= 3 - pi);
                }
                if !face_is_shared_by_tetrahedra(&face, &others) {
                    boundary_faces.push(face);
                }
                fi += 1;
            }
            bi += 1;
        }

        // Remove the cavity.
        let mut bd: usize = 0;
        while bd < bad_tetrahedra.len()
            invariant
                rejects_all ==> bad_tetrahedra@.len() == 0,
                rejects_all ==> tetrahedralization@ =~= seq![super_tetrahedron],
                forall|i: int|
                    0 <= i < tetrahedralization@.len() ==> spec_super_slots(
                        #[trigger] tetrahedralization@[i],
                        super_tetrahedron,
                    ) >= 4 - pi,
                forall|i: int|
                    0 <= i < tetrahedralization@.len() ==> spec_tetrahedron_allowed_3d(
                        #[trigger] tetrahedralization@[i],
                        points@,
                        super_tetrahedron,
                    ),
            decreases bad_tetrahedra@.len() - bd,
        {
            let bad = bad_tetrahedra[bd];
            tetrahedralization = remove_matching_tetrahedra(tetrahedralization, &bad);
            bd += 1;
        }

        // Reconnect each boundary face to the new point.
        let mut ri: usize = 0;
        while ri < boundary_faces.len()
            invariant
                0 <= pi < points@.len(),
                point == points@[pi as int],
                rejects_all ==> boundary_faces@.len() == 0,
                rejects_all ==> tetrahedralization@ =~= seq![super_tetrahedron],
                forall|i: int|
                    0 <= i < boundary_faces@.len() ==> spec_super_slots_face(
                        #[trigger] boundary_faces@[i],
                        super_tetrahedron,
                    ) >= 3 - pi,
                forall|i: int|
                    0 <= i < tetrahedralization@.len() ==> spec_super_slots(
                        #[trigger] tetrahedralization@[i],
                        super_tetrahedron,
                    ) >= 4 - (pi + 1),
                forall|i: int|
                    0 <= i < boundary_faces@.len() ==> spec_face_allowed_3d(
                        #[trigger] boundary_faces@[i],
                        points@,
                        super_tetrahedron,
                    ),
                forall|i: int|
                    0 <= i < tetrahedralization@.len() ==> spec_tetrahedron_allowed_3d(
                        #[trigger] tetrahedralization@[i],
                        points@,
                        super_tetrahedron,
                    ),
            decreases boundary_faces@.len() - ri,
        {
            let new_tet = retetrahedralize(&boundary_faces[ri], &point);
            tetrahedralization.push(new_tet);
            ri += 1;
        }
        pi += 1;
    }

    let result = remove_tetrahedra_with_vertices_from_super_tetrahedron(
        &tetrahedralization,
        &super_tetrahedron,
    );
    proof {
        if points@.len() < 4 {
            assert(result@.len() == 0) by {
                if result@.len() > 0 {
                    assert(tetrahedralization@.contains(result@[0]));
                    let w = choose|w: int|
                        0 <= w < tetrahedralization@.len() && tetrahedralization@[w] == result@[0];
                    assert(spec_super_slots(tetrahedralization@[w], super_tetrahedron) >= 4
                        - points@.len());
                    assert(spec_super_slots(result@[0], super_tetrahedron) >= 1);
                    assert(spec_tetrahedron_shares_vertex(result@[0], super_tetrahedron));
                    assert(!spec_tetrahedron_shares_vertex(result@[0], super_tetrahedron));
                }
            }
        }
        if rejects_all {
            assert(super_tetrahedron.has_vertex(super_tetrahedron.a));
            assert(spec_tetrahedron_shares_vertex(super_tetrahedron, super_tetrahedron));
            assert(result@.len() == 0) by {
                if result@.len() > 0 {
                    assert(tetrahedralization@.contains(result@[0]));
                    assert(result@[0] == super_tetrahedron);
                    assert(!spec_tetrahedron_shares_vertex(result@[0], super_tetrahedron));
                }
            }
        }
        assert forall|i: int| 0 <= i < result@.len() implies spec_tetrahedron_vertices_from(
            #[trigger] result@[i],
            points@,
        ) by {
            assert(tetrahedralization@.contains(result@[i]));
            let j = choose|j: int|
                0 <= j < tetrahedralization@.len() && tetrahedralization@[j] == result@[i];
            assert(spec_tetrahedron_allowed_3d(
                tetrahedralization@[j],
                points@,
                super_tetrahedron,
            ));
            assert(!spec_tetrahedron_shares_vertex(result@[i], super_tetrahedron));
        }
    }
    result
}

} // verus!
