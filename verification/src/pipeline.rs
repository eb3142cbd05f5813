use vstd::prelude::*;

use crate::advancing_front::{
    advancing_front, spec_af_label_bound, spec_af_labels_functional, spec_af_tet_from_search,
    spec_af_tet_ok, spec_max_face_label, spec_max_point_label, FrontChoice,
};
use crate::delaunay_refinement::{
    delaunay_refinement, spec_refined_rebuild, spec_refined_tet_ok,
};
use crate::export::build_label_table;
use crate::marching_cubes::marching_cubes;
use crate::model::{Coord, Face, Point3D, Tetrahedron};

verus! {

/// The vertex labels of a tetrahedron stream: four per tetrahedron, in
/// order.
pub open spec fn spec_mesh_labels(ts: Seq<Tetrahedron>) -> Seq<i64>
    decreases ts.len(),
{
    if ts.len() == 0 {
        Seq::empty()
    } else {
        spec_mesh_labels(ts.drop_last()) + seq![
            ts.last().a.index,
            ts.last().b.index,
            ts.last().c.index,
            ts.last().d.index,
        ]
    }
}

/// The vertex at stream position `p` of a tetrahedron sequence.
pub open spec fn spec_mesh_vertex(ts: Seq<Tetrahedron>, p: int) -> Point3D {
    if p % 4 == 0 {
        ts[p / 4].a
    } else if p % 4 == 1 {
        ts[p / 4].b
    } else if p % 4 == 2 {
        ts[p / 4].c
    } else {
        ts[p / 4].d
    }
}

proof fn lemma_mesh_labels(ts: Seq<Tetrahedron>)
    ensures
        spec_mesh_labels(ts).len() == 4 * ts.len(),
        forall|p: int|
            0 <= p < 4 * ts.len() ==> spec_mesh_labels(ts)[p] == spec_mesh_vertex(ts, p).index,
    decreases ts.len(),
{
    if ts.len() > 0 {
        lemma_mesh_labels(ts.drop_last());
        assert forall|p: int| 0 <= p < 4 * ts.len() implies spec_mesh_labels(ts)[p]
            == spec_mesh_vertex(ts, p).index by {
            if p < 4 * (ts.len() - 1) {
                assert(spec_mesh_labels(ts)[p] == spec_mesh_labels(ts.drop_last())[p]);
                assert(spec_mesh_vertex(ts.drop_last(), p) == spec_mesh_vertex(ts, p));
            } else {
                assert(p / 4 == ts.len() - 1) by (nonlinear_arith)
                    requires
                        4 * (ts.len() - 1) <= p < 4 * ts.len(),
                ;
                assert(p % 4 == p - 4 * (ts.len() - 1)) by (nonlinear_arith)
                    requires
                        4 * (ts.len() - 1) <= p < 4 * ts.len(),
                ;
            }
        }
    }
}

/// Whether some collected point carries the given label.
pub open spec fn spec_label_present(points: Seq<Point3D>, label: i64) -> bool {
    exists|k: int| 0 <= k < points.len() && (#[trigger] points[k]).index == label
}

/// Whether `v` is a vertex of some tetrahedron of `ts`.
pub open spec fn spec_vertex_of_mesh(v: Point3D, ts: Seq<Tetrahedron>) -> bool {
    exists|t: int| 0 <= t < ts.len() && (#[trigger] ts[t]).has_vertex(v)
}

/// Whether `v` is a vertex of some face of `fs`.
pub open spec fn spec_vertex_of_faces(v: Point3D, fs: Seq<Face>) -> bool {
    exists|t: int| 0 <= t < fs.len() && (#[trigger] fs[t]).has_vertex(v)
}

/// Whether `points` is the vertex catalogue of the mesh `ts`: one entry
/// per label in strictly ascending label order, each a vertex of the mesh,
/// and no mesh label missing.
pub open spec fn spec_point_catalog(points: Seq<Point3D>, ts: Seq<Tetrahedron>) -> bool {
    &&& points.len() <= 4 * ts.len()
    &&& forall|i: int, j: int|
        0 <= i < j < points.len() ==> (#[trigger] points[i]).index < (#[trigger] points[j]).index
    &&& forall|i: int| 0 <= i < points.len() ==> spec_vertex_of_mesh(#[trigger] points[i], ts)
    &&& forall|t: int|
        0 <= t < ts.len() ==> spec_label_present(points, (#[trigger] ts[t]).a.index)
            && spec_label_present(points, ts[t].b.index) && spec_label_present(
            points,
            ts[t].c.index,
        ) && spec_label_present(points, ts[t].d.index)
}

/// Whether `mesh` is a refinement run over the vertex catalogue of the
/// filler mesh `filler`: every result vertex is a catalogue point or a
/// fresh-labelled Steiner point, and a non-empty result is a rebuild over
/// the catalogue grown by its circumcenters.
pub open spec fn spec_refined_from<G: Fn(&Vec<Point3D>) -> Tetrahedron>(
    mesh: Seq<Tetrahedron>,
    filler: Seq<Tetrahedron>,
    pts: Seq<Point3D>,
    make_super: G,
) -> bool {
    &&& spec_point_catalog(pts, filler)
    &&& forall|i: int| 0 <= i < mesh.len() ==> spec_refined_tet_ok(#[trigger] mesh[i], pts)
    &&& (mesh.len() > 0 ==> spec_refined_rebuild(mesh, pts, make_super))
}

/// The witness bundle of an octree-then-refine run.
pub open spec fn spec_octree_refined_witness<G: Fn(&Vec<Point3D>) -> Tetrahedron>(
    mesh: Seq<Tetrahedron>,
    filler: Seq<Tetrahedron>,
    leaves: int,
    pts: Seq<Point3D>,
    cap: nat,
    make_super: G,
) -> bool {
    &&& crate::octree::spec_octree_result(filler, leaves, cap)
    &&& spec_refined_from(mesh, filler, pts, make_super)
}

/// The witness bundle of a voxel-then-refine run.
pub open spec fn spec_voxel_refined_witness<
    F: Fn(usize, usize, usize) -> bool,
    G: Fn(&Vec<Point3D>) -> Tetrahedron,
>(
    mesh: Seq<Tetrahedron>,
    filler: Seq<Tetrahedron>,
    pts: Seq<Point3D>,
    nx: int,
    ny: int,
    nz: int,
    cell_inside: F,
    make_super: G,
) -> bool {
    &&& filler.len() % 5 == 0
    &&& filler.len() <= 5 * ((nx * ny) * nz)
    &&& crate::voxel_mesh::spec_voxel_groups_ok(
        filler,
        filler.len() as int / 5,
        nx,
        ny,
        nz,
        cell_inside,
    )
    &&& spec_refined_from(mesh, filler, pts, make_super)
}

/// The witness bundle of a marching-cubes-then-advancing-front run: the
/// extracted faces, their vertex collection, and the volume mesh the front
/// grew from them.
pub open spec fn spec_volume_provenance<
    I: Fn(u64, u64) -> (Coord, Coord, Coord),
    F: Fn(Face, &Vec<Point3D>) -> FrontChoice,
>(
    tets: Seq<Tetrahedron>,
    below: Seq<bool>,
    fs: Seq<Face>,
    pts: Seq<Point3D>,
    cells: int,
    interp: I,
    pick_apex: F,
) -> bool {
    &&& crate::marching_cubes::spec_mc_faces_ok(fs, below, interp)
    &&& fs.len() <= 12 * cells
    &&& forall|i: int| 0 <= i < pts.len() ==> spec_vertex_of_faces(#[trigger] pts[i], fs)
    &&& forall|i: int| 0 <= i < tets.len() ==> spec_af_tet_ok(#[trigger] tets[i], fs, pts)
    &&& forall|i: int|
        0 <= i < tets.len() ==> spec_af_tet_from_search(#[trigger] tets[i], fs, pts, pick_apex)
    &&& spec_af_labels_functional(tets, fs, pts)
}

/// Every label of a well-formed marching-cubes face list stays below three
/// times its length.
proof fn lemma_mc_face_label_bound<I: Fn(u64, u64) -> (Coord, Coord, Coord)>(
    fs: Seq<Face>,
    below: Seq<bool>,
    interp: I,
)
    requires
        crate::marching_cubes::spec_mc_faces_ok(fs, below, interp),
    ensures
        spec_max_face_label(fs) < 3 * fs.len(),
        spec_max_face_label(fs) >= -1,
    decreases fs.len(),
{
    if fs.len() > 0 {
        assert(crate::marching_cubes::spec_mc_face_ok(
            fs[fs.len() - 1],
            fs.len() - 1,
            below,
            interp,
        ));
        assert forall|fi: int|
            0 <= fi < fs.drop_last().len() implies crate::marching_cubes::spec_mc_face_ok(
            #[trigger] fs.drop_last()[fi],
            fi,
            below,
            interp,
        ) by {
            assert(fs.drop_last()[fi] == fs[fi]);
        }
        lemma_mc_face_label_bound(fs.drop_last(), below, interp);
    }
}

/// Points collected from a face list never carry a label above the faces'
/// maximum.
proof fn lemma_collected_label_bound(points: Seq<Point3D>, fs: Seq<Face>)
    requires
        forall|i: int| 0 <= i < points.len() ==> spec_vertex_of_faces(#[trigger] points[i], fs),
    ensures
        spec_max_point_label(points) <= if spec_max_face_label(fs) >= -1 {
            spec_max_face_label(fs)
        } else {
            -1
        },
    decreases points.len(),
{
    crate::advancing_front::lemma_max_face_label_ge(fs);
    if points.len() > 0 {
        assert forall|i: int|
            0 <= i < points.drop_last().len() implies spec_vertex_of_faces(
            #[trigger] points.drop_last()[i],
            fs,
        ) by {
            assert(points.drop_last()[i] == points[i]);
        }
        lemma_collected_label_bound(points.drop_last(), fs);
        assert(spec_vertex_of_faces(points[points.len() - 1], fs));
        let w = choose|t: int|
            0 <= t < fs.len() && (#[trigger] fs[t]).has_vertex(points.last());
        assert(points.last().index <= spec_max_face_label(fs));
    }
}

/// Collects the distinct vertices of a tetrahedral mesh, one per label,
/// sorted by label.
///
/// The result keeps, for every label, the first vertex of the stream that
/// carries it, lists the vertices in strictly ascending label order, and
/// misses no label of the mesh.
#[verifier::rlimit(100)]
pub fn extract_unique_points(tetrahedra: &Vec<Tetrahedron>) -> (points: Vec<Point3D>)
    requires
        tetrahedra@.len() * 4 <= usize::MAX,
    ensures
        points@.len() <= 4 * tetrahedra@.len(),
        forall|i: int, j: int|
            0 <= i < j < points@.len() ==> (#[trigger] points@[i]).index < (
            #[trigger] points@[j]).index,
        forall|i: int|
            0 <= i < points@.len() ==> spec_vertex_of_mesh(#[trigger] points@[i], tetrahedra@),
        forall|t: int|
            0 <= t < tetrahedra@.len() ==> spec_label_present(
                points@,
                (#[trigger] tetrahedra@[t]).a.index,
            ) && spec_label_present(points@, tetrahedra@[t].b.index) && spec_label_present(
                points@,
                tetrahedra@[t].c.index,
            ) && spec_label_present(points@, tetrahedra@[t].d.index),
        spec_point_catalog(points@, tetrahedra@),
{
    let ghost ts = tetrahedra@;
    proof {
        lemma_mesh_labels(ts);
    }

    let mut labels: Vec<i64> = Vec::new();
    let mut i: usize = 0;
    while i < tetrahedra.len()
        invariant
            0 <= i <= ts.len(),
            ts == tetrahedra@,
            labels@ == spec_mesh_labels(ts.subrange(0, i as int)),
        decreases ts.len() - i,
    {
        let t = &tetrahedra[i];
        labels.push(t.a.index);
        labels.push(t.b.index);
        labels.push(t.c.index);
        labels.push(t.d.index);
        proof {
            assert(ts.subrange(0, i + 1 as int).drop_last() =~= ts.subrange(0, i as int));
            assert(labels@ =~= spec_mesh_labels(ts.subrange(0, i + 1 as int)));
        }
        i += 1;
    }
    proof {
        assert(ts.subrange(0, ts.len() as int) =~= ts);
    }

    let table = build_label_table(&labels);

    let mut points: Vec<Point3D> = Vec::new();
    let mut k: usize = 0;
    while k < table.len()
        invariant
            0 <= k <= table@.len(),
            ts == tetrahedra@,
            labels@ == spec_mesh_labels(ts),
            crate::export::spec_table_sorted(table@),
            crate::export::spec_table_first_occurrences(table@, labels@),
            points@.len() == k,
            forall|a: int|
                0 <= a < k ==> (#[trigger] points@[a]).index == table@[a].0,
            forall|a: int|
                0 <= a < k ==> spec_vertex_of_mesh(#[trigger] points@[a], ts),
        decreases table@.len() - k,
    {
        let e = table[k];
        let pos = e.1;
        proof {
            lemma_mesh_labels(ts);
            assert(pos < labels@.len());
            assert(pos / 4 < ts.len()) by (nonlinear_arith)
                requires
                    pos < 4 * ts.len(),
            ;
        }
        let ti = pos / 4;
        let slot = pos % 4;
        let t = &tetrahedra[ti];
        let v: Point3D = if slot == 0 {
            t.a
        } else if slot == 1 {
            t.b
        } else if slot == 2 {
            t.c
        } else {
            t.d
        };
        proof {
            assert(v == spec_mesh_vertex(ts, pos as int));
            assert(v.index == labels@[pos as int]);
            assert(ts[ti as int].has_vertex(v));
        }
        points.push(v);
        k += 1;
    }
    proof {
        lemma_mesh_labels(ts);
        assert forall|t: int| 0 <= t < ts.len() implies spec_label_present(
            points@,
            (#[trigger] ts[t]).a.index,
        ) && spec_label_present(points@, ts[t].b.index) && spec_label_present(
            points@,
            ts[t].c.index,
        ) && spec_label_present(points@, ts[t].d.index) by {
            assert(labels@[4 * t] == ts[t].a.index);
            assert(labels@[4 * t + 1] == ts[t].b.index);
            assert(labels@[4 * t + 2] == ts[t].c.index);
            assert(labels@[4 * t + 3] == ts[t].d.index);
            assert(crate::export::spec_label_in_table(table@, labels@[4 * t]));
            assert(crate::export::spec_label_in_table(table@, labels@[4 * t + 1]));
            assert(crate::export::spec_label_in_table(table@, labels@[4 * t + 2]));
            assert(crate::export::spec_label_in_table(table@, labels@[4 * t + 3]));
            let wa = choose|w: int|
                0 <= w < table@.len() && (#[trigger] table@[w]).0 == labels@[4 * t];
            assert(points@[wa].index == ts[t].a.index);
            let wb = choose|w: int|
                0 <= w < table@.len() && (#[trigger] table@[w]).0 == labels@[4 * t + 1];
            assert(points@[wb].index == ts[t].b.index);
            let wc = choose|w: int|
                0 <= w < table@.len() && (#[trigger] table@[w]).0 == labels@[4 * t + 2];
            assert(points@[wc].index == ts[t].c.index);
            let wd = choose|w: int|
                0 <= w < table@.len() && (#[trigger] table@[w]).0 == labels@[4 * t + 3];
            assert(points@[wd].index == ts[t].d.index);
        }
    }
    points
}

/// Collects the distinct vertices of a face list, one per label, sorted by
/// label.
pub fn collect_face_points(faces: &Vec<Face>) -> (points: Vec<Point3D>)
    requires
        faces@.len() * 3 <= usize::MAX,
    ensures
        points@.len() <= 3 * faces@.len(),
        forall|i: int, j: int|
            0 <= i < j < points@.len() ==> (#[trigger] points@[i]).index < (
            #[trigger] points@[j]).index,
        forall|i: int|
            0 <= i < points@.len() ==> spec_vertex_of_faces(#[trigger] points@[i], faces@),
        forall|t: int|
            0 <= t < faces@.len() ==> spec_label_present(
                points@,
                (#[trigger] faces@[t]).a.index,
            ) && spec_label_present(points@, faces@[t].b.index) && spec_label_present(
                points@,
                faces@[t].c.index,
            ),
{
    let ghost fs = faces@;
    let mut labels: Vec<i64> = Vec::new();
    let mut i: usize = 0;
    while i < faces.len()
        invariant
            0 <= i <= fs.len(),
            fs == faces@,
            labels@.len() == 3 * i,
            forall|p: int|
                0 <= p < 3 * i ==> #[trigger] labels@[p] == (if p % 3 == 0 {
                    fs[p / 3].a.index
                } else if p % 3 == 1 {
                    fs[p / 3].b.index
                } else {
                    fs[p / 3].c.index
                }),
        decreases fs.len() - i,
    {
        let f = &faces[i];
        labels.push(f.a.index);
        labels.push(f.b.index);
        labels.push(f.c.index);
        proof {
            assert forall|p: int| 0 <= p < 3 * (i + 1) implies #[trigger] labels@[p] == (if p % 3
                == 0 {
                fs[p / 3].a.index
            } else if p % 3 == 1 {
                fs[p / 3].b.index
            } else {
                fs[p / 3].c.index
            }) by {
                if p >= 3 * i {
                    assert(p / 3 == i && p % 3 == p - 3 * i) by (nonlinear_arith)
                        requires
                            3 * i <= p < 3 * (i + 1),
                    ;
                }
            }
        }
        i += 1;
    }

    let table = build_label_table(&labels);

    let mut points: Vec<Point3D> = Vec::new();
    let mut k: usize = 0;
    while k < table.len()
        invariant
            0 <= k <= table@.len(),
            fs == faces@,
            labels@.len() == 3 * fs.len(),
            crate::export::spec_table_sorted(table@),
            crate::export::spec_table_first_occurrences(table@, labels@),
            forall|p: int|
                0 <= p < 3 * fs.len() ==> #[trigger] labels@[p] == (if p % 3 == 0 {
                    fs[p / 3].a.index
                } else if p % 3 == 1 {
                    fs[p / 3].b.index
                } else {
                    fs[p / 3].c.index
                }),
            points@.len() == k,
            forall|a: int|
                0 <= a < k ==> (#[trigger] points@[a]).index == table@[a].0,
            forall|a: int|
                0 <= a < k ==> spec_vertex_of_faces(#[trigger] points@[a], fs),
        decreases table@.len() - k,
    {
        let e = table[k];
        let pos = e.1;
        proof {
            assert(pos < labels@.len());
            assert(pos / 3 < fs.len()) by (nonlinear_arith)
                requires
                    pos < 3 * fs.len(),
            ;
        }
        let ti = pos / 3;
        let slot = pos % 3;
        let f = &faces[ti];
        let v: Point3D = if slot == 0 {
            f.a
        } else if slot == 1 {
            f.b
        } else {
            f.c
        };
        proof {
            assert(v.index == labels@[pos as int]);
            assert(fs[ti as int].has_vertex(v));
        }
        points.push(v);
        k += 1;
    }
    proof {
        assert forall|t: int| 0 <= t < fs.len() implies spec_label_present(
            points@,
            (#[trigger] fs[t]).a.index,
        ) && spec_label_present(points@, fs[t].b.index) && spec_label_present(
            points@,
            fs[t].c.index,
        ) by {
            assert(labels@[3 * t] == fs[t].a.index);
            assert(labels@[3 * t + 1] == fs[t].b.index);
            assert(labels@[3 * t + 2] == fs[t].c.index);
            assert(crate::export::spec_label_in_table(table@, labels@[3 * t]));
            assert(crate::export::spec_label_in_table(table@, labels@[3 * t + 1]));
            assert(crate::export::spec_label_in_table(table@, labels@[3 * t + 2]));
            let wa = choose|w: int|
                0 <= w < table@.len() && (#[trigger] table@[w]).0 == labels@[3 * t];
            assert(points@[wa].index == fs[t].a.index);
            let wb = choose|w: int|
                0 <= w < table@.len() && (#[trigger] table@[w]).0 == labels@[3 * t + 1];
            assert(points@[wb].index == fs[t].b.index);
            let wc = choose|w: int|
                0 <= w < table@.len() && (#[trigger] table@[w]).0 == labels@[3 * t + 2];
            assert(points@[wc].index == fs[t].c.index);
        }
    }
    points
}

/// Extracts an isosurface with marching cubes, then fills the enclosed
/// volume with the advancing front.
///
/// A field with no sign change over the grid produces no surface and hence
/// an empty volume mesh.
pub fn surface_to_volume<
    I: Fn(u64, u64) -> (Coord, Coord, Coord),
    F: Fn(Face, &Vec<Point3D>) -> FrontChoice,
>(
    nx: usize,
    ny: usize,
    nz: usize,
    below: &Vec<bool>,
    interp: I,
    pick_apex: F,
) -> (tetrahedra: Vec<Tetrahedron>)
    requires
        below@.len() == (nx + 1) * (ny + 1) * (nz + 1),
        (nx + 1) * (ny + 1) * (nz + 1) <= usize::MAX,
        (nx + 1) * (ny + 1) * (nz + 1) <= i64::MAX,
        3600 * ((nx * ny) * nz) + 40 <= usize::MAX,
        3600 * ((nx * ny) * nz) + 40 <= i64::MAX,
        forall|ga: u64, gb: u64| #[trigger] call_requires(interp, (ga, gb)),
        forall|f: Face, pl: &Vec<Point3D>| #[trigger] call_requires(pick_apex, (f, pl)),
        forall|f: Face, pl: &Vec<Point3D>, p: Point3D|
            #[trigger] call_ensures(pick_apex, (f, pl), FrontChoice::Existing(p)) ==> pl@.contains(
                p,
            ),
    ensures
        (forall|g: int| 0 <= g < below@.len() ==> #[trigger] below@[g] == below@[0])
            ==> tetrahedra@.len() == 0,
        exists|fs: Seq<Face>, pts: Seq<Point3D>|
            #[trigger] spec_volume_provenance(
                tetrahedra@,
                below@,
                fs,
                pts,
                ((nx * ny) * nz) as int,
                interp,
                pick_apex,
            ),
{
    let faces = marching_cubes(nx, ny, nz, below, interp);
    if faces.len() == 0 {
        let result: Vec<Tetrahedron> = Vec::new();
        proof {
            assert(spec_volume_provenance(
                result@,
                below@,
                faces@,
                Seq::<Point3D>::empty(),
                ((nx * ny) * nz) as int,
                interp,
                pick_apex,
            ));
        }
        return result;
    }
    let points = collect_face_points(&faces);
    proof {
        lemma_mc_face_label_bound(faces@, below@, interp);
        lemma_collected_label_bound(points@, faces@);
        assert(spec_af_label_bound(faces@, points@) < 3 * faces@.len());
    }
    let result = advancing_front(faces, points, pick_apex);
    proof {
        assert(spec_volume_provenance(
            result@,
            below@,
            faces@,
            points@,
            ((nx * ny) * nz) as int,
            interp,
            pick_apex,
        ));
    }
    result
}

/// Fills a domain with an octree mesh and refines the result for quality.
///
/// A domain predicate that rejects everything yields an empty mesh.
pub fn octree_refined<
    F: Fn(Point3D) -> bool,
    H: Fn(Coord, Coord) -> Coord,
    C: Fn(Tetrahedron, Point3D) -> bool + Copy,
    G: Fn(&Vec<Point3D>) -> Tetrahedron,
    J: Fn(&Vec<Tetrahedron>) -> Option<(Coord, Coord, Coord)>,
>(
    min: Point3D,
    max: Point3D,
    max_depth: usize,
    is_inside: F,
    mid: H,
    make_super: G,
    in_circumsphere: C,
    pick_split: J,
) -> (mesh: Vec<Tetrahedron>)
    requires
        8 * crate::octree::spec_pow8(max_depth as nat) <= i64::MAX,
        4040 * crate::octree::spec_pow8(max_depth as nat) <= usize::MAX,
        4040 * crate::octree::spec_pow8(max_depth as nat) <= i64::MAX,
        forall|p: Point3D| #[trigger] call_requires(is_inside, (p,)),
        forall|a: Coord, c: Coord| #[trigger] call_requires(mid, (a, c)),
        forall|t: Tetrahedron, p: Point3D| #[trigger] call_requires(in_circumsphere, (t, p)),
        forall|pl: &Vec<Point3D>| #[trigger] call_requires(make_super, (pl,)),
        forall|m: &Vec<Tetrahedron>| #[trigger] call_requires(pick_split, (m,)),
    ensures
        (forall|a: (Point3D,), r: bool| call_ensures(is_inside, a, r) ==> !r) ==> mesh@.len() == 0,
        exists|filler: Seq<Tetrahedron>, leaves: int, pts: Seq<Point3D>|
            #[trigger] spec_octree_refined_witness(
                mesh@,
                filler,
                leaves,
                pts,
                crate::octree::spec_pow8(max_depth as nat),
                make_super,
            ),
{
    let tets = crate::octree::octree_mesh(min, max, max_depth, is_inside, mid);
    let ghost cap = crate::octree::spec_pow8(max_depth as nat);
    let ghost l = choose|l: int| #[trigger] crate::octree::spec_octree_result(tets@, l, cap);
    if tets.len() == 0 {
        let result: Vec<Tetrahedron> = Vec::new();
        proof {
            assert(spec_point_catalog(Seq::<Point3D>::empty(), tets@));
            assert(spec_octree_refined_witness(
                result@,
                tets@,
                l,
                Seq::<Point3D>::empty(),
                cap,
                make_super,
            ));
        }
        return result;
    }
    proof {
        assert(tets@.len() <= 5 * cap);
    }
    let points = extract_unique_points(&tets);
    let result = delaunay_refinement(points, make_super, in_circumsphere, pick_split);
    proof {
        assert(spec_octree_refined_witness(result@, tets@, l, points@, cap, make_super));
    }
    result
}

/// Fills a domain with a voxel mesh and refines the result for quality.
///
/// A domain predicate that rejects everything yields an empty mesh.
pub fn voxel_refined<
    F: Fn(usize, usize, usize) -> bool,
    H: Fn(usize, usize, usize) -> (Coord, Coord, Coord),
    C: Fn(Tetrahedron, Point3D) -> bool + Copy,
    G: Fn(&Vec<Point3D>) -> Tetrahedron,
    J: Fn(&Vec<Tetrahedron>) -> Option<(Coord, Coord, Coord)>,
>(
    nx: usize,
    ny: usize,
    nz: usize,
    cell_inside: F,
    corner: H,
    make_super: G,
    in_circumsphere: C,
    pick_split: J,
) -> (mesh: Vec<Tetrahedron>)
    requires
        (nx + 1) * (ny + 1) * (nz + 1) <= usize::MAX,
        (nx + 1) * (ny + 1) * (nz + 1) <= i64::MAX,
        2020 * ((nx + 1) * (ny + 1) * (nz + 1)) <= usize::MAX,
        2020 * ((nx + 1) * (ny + 1) * (nz + 1)) <= i64::MAX,
        forall|a: usize, b: usize, c: usize| #[trigger] call_requires(cell_inside, (a, b, c)),
        forall|a: usize, b: usize, c: usize| #[trigger] call_requires(corner, (a, b, c)),
        forall|t: Tetrahedron, p: Point3D| #[trigger] call_requires(in_circumsphere, (t, p)),
        forall|pl: &Vec<Point3D>| #[trigger] call_requires(make_super, (pl,)),
        forall|m: &Vec<Tetrahedron>| #[trigger] call_requires(pick_split, (m,)),
    ensures
        (forall|a: (usize, usize, usize), r: bool| call_ensures(cell_inside, a, r) ==> !r)
            ==> mesh@.len() == 0,
        exists|filler: Seq<Tetrahedron>, pts: Seq<Point3D>|
            #[trigger] spec_voxel_refined_witness(
                mesh@,
                filler,
                pts,
                nx as int,
                ny as int,
                nz as int,
                cell_inside,
                make_super,
            ),
{
    let tets = crate::voxel_mesh::voxel_mesh(nx, ny, nz, cell_inside, corner);
    if tets.len() == 0 {
        let result: Vec<Tetrahedron> = Vec::new();
        proof {
            assert(spec_point_catalog(Seq::<Point3D>::empty(), tets@));
            assert(spec_voxel_refined_witness(
                result@,
                tets@,
                Seq::<Point3D>::empty(),
                nx as int,
                ny as int,
                nz as int,
                cell_inside,
                make_super,
            ));
        }
        return result;
    }
    proof {
        assert(((nx as int) * (ny as int)) * (nz as int) <= ((nx as int) + 1) * ((ny as int) + 1)
            * ((nz as int) + 1)) by (nonlinear_arith)
            requires
                nx as int >= 0,
                ny as int >= 0,
                nz as int >= 0,
        ;
    }
    let points = extract_unique_points(&tets);
    let result = delaunay_refinement(points, make_super, in_circumsphere, pick_split);
    proof {
        assert(spec_voxel_refined_witness(
            result@,
            tets@,
            points@,
            nx as int,
            ny as int,
            nz as int,
            cell_inside,
            make_super,
        ));
    }
    result
}

/// Rebuilds an existing tetrahedral mesh with Delaunay refinement, from its
/// distinct vertices.
///
/// An empty input yields an empty mesh.
pub fn refine_tetrahedra<
    C: Fn(Tetrahedron, Point3D) -> bool + Copy,
    G: Fn(&Vec<Point3D>) -> Tetrahedron,
    J: Fn(&Vec<Tetrahedron>) -> Option<(Coord, Coord, Coord)>,
>(
    tetrahedra: &Vec<Tetrahedron>,
    make_super: G,
    in_circumsphere: C,
    pick_split: J,
) -> (mesh: Vec<Tetrahedron>)
    requires
        tetrahedra@.len() * 404 <= usize::MAX,
        tetrahedra@.len() * 404 <= i64::MAX,
        forall|t: Tetrahedron, p: Point3D| #[trigger] call_requires(in_circumsphere, (t, p)),
        forall|pl: &Vec<Point3D>| #[trigger] call_requires(make_super, (pl,)),
        forall|m: &Vec<Tetrahedron>| #[trigger] call_requires(pick_split, (m,)),
    ensures
        tetrahedra@.len() == 0 ==> mesh@.len() == 0,
        exists|pts: Seq<Point3D>|
            #[trigger] spec_refined_from(mesh@, tetrahedra@, pts, make_super),
{
    if tetrahedra.len() == 0 {
        let result: Vec<Tetrahedron> = Vec::new();
        proof {
            assert(spec_point_catalog(Seq::<Point3D>::empty(), tetrahedra@));
            assert(spec_refined_from(result@, tetrahedra@, Seq::<Point3D>::empty(), make_super));
        }
        return result;
    }
    let points = extract_unique_points(tetrahedra);
    let result = delaunay_refinement(points, make_super, in_circumsphere, pick_split);
    proof {
        assert(spec_refined_from(result@, tetrahedra@, points@, make_super));
    }
    result
}

} // verus!
