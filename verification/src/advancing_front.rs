use vstd::prelude::*;

use crate::model::{Coord, Face, Point3D, Tetrahedron};

verus! {

/// The apex that the caller's search chose for the current front face:
/// either one of the points of the working list, or a freshly synthesized
/// position (the floating-point front end places it along the face normal).
#[derive(Clone, Copy)]
pub enum FrontChoice {
    Existing(Point3D),
    Fresh(Coord, Coord, Coord),
}

/// The largest vertex label among the boundary faces, or `-1` for none.
pub open spec fn spec_max_face_label(faces: Seq<Face>) -> int
    decreases faces.len(),
{
    if faces.len() == 0 {
        -1
    } else {
        let rest = spec_max_face_label(faces.drop_last());
        let f = faces.last();
        let own = if f.a.index >= f.b.index && f.a.index >= f.c.index {
            f.a.index as int
        } else if f.b.index >= f.c.index {
            f.b.index as int
        } else {
            f.c.index as int
        };
        if rest >= own {
            rest
        } else {
            own
        }
    }
}

/// The largest label among the points, or `-1` for none.
pub open spec fn spec_max_point_label(points: Seq<Point3D>) -> int
    decreases points.len(),
{
    if points.len() == 0 {
        -1
    } else {
        let rest = spec_max_point_label(points.drop_last());
        if rest >= points.last().index {
            rest
        } else {
            points.last().index as int
        }
    }
}

/// The largest caller-supplied label of an advancing-front run, or `-1`:
/// synthesized points carry labels strictly past it, so they collide
/// neither with caller labels nor with each other.
pub open spec fn spec_af_label_bound(faces: Seq<Face>, points: Seq<Point3D>) -> int {
    if spec_max_face_label(faces) >= spec_max_point_label(points) {
        spec_max_face_label(faces)
    } else {
        spec_max_point_label(points)
    }
}

/// Whether `v` may appear in an advancing-front result built from the
/// boundary `faces` and the point list `points`: it is a vertex of a
/// boundary face, one of the points, or a synthesized point, whose label
/// lies strictly past every caller label.
pub open spec fn spec_af_vertex_ok(v: Point3D, faces: Seq<Face>, points: Seq<Point3D>) -> bool {
    ||| exists|i: int| 0 <= i < faces.len() && (#[trigger] faces[i]).has_vertex(v)
    ||| points.contains(v)
    ||| v.index > spec_af_label_bound(faces, points)
}

/// Whether all vertices of `f` satisfy [`spec_af_vertex_ok`].
pub open spec fn spec_af_face_ok(f: Face, faces: Seq<Face>, points: Seq<Point3D>) -> bool {
    &&& spec_af_vertex_ok(f.a, faces, points)
    &&& spec_af_vertex_ok(f.b, faces, points)
    &&& spec_af_vertex_ok(f.c, faces, points)
}

/// Whether all vertices of `t` satisfy [`spec_af_vertex_ok`].
pub open spec fn spec_af_tet_ok(t: Tetrahedron, faces: Seq<Face>, points: Seq<Point3D>) -> bool {
    &&& spec_af_vertex_ok(t.a, faces, points)
    &&& spec_af_vertex_ok(t.b, faces, points)
    &&& spec_af_vertex_ok(t.c, faces, points)
    &&& spec_af_vertex_ok(t.d, faces, points)
}

/// Whether tetrahedron `t` records one answer of the apex search: its first
/// three vertices are the face that was handed to the search, and its apex
/// is the search's choice (an existing point, or a synthesized point with
/// the chosen coordinates and a label past every caller label).
pub open spec fn spec_af_tet_from_search<F: Fn(Face, &Vec<Point3D>) -> FrontChoice>(
    t: Tetrahedron,
    faces: Seq<Face>,
    points: Seq<Point3D>,
    pick_apex: F,
) -> bool {
    exists|f: Face, pl: &Vec<Point3D>, ch: FrontChoice|
        {
            &&& #[trigger] call_ensures(pick_apex, (f, pl), ch)
            &&& t.a == f.a
            &&& t.b == f.b
            &&& t.c == f.c
            &&& (ch matches FrontChoice::Existing(p) ==> t.d == p)
            &&& (ch matches FrontChoice::Fresh(x, y, z) ==> t.d.x == x && t.d.y == y && t.d.z == z
                && t.d.index > spec_af_label_bound(faces, points))
        }
}

/// Whether equal labels past the caller bound always name the same point:
/// synthesized labels are never reused for different positions.
pub open spec fn spec_af_labels_functional(
    tets: Seq<Tetrahedron>,
    faces: Seq<Face>,
    points: Seq<Point3D>,
) -> bool {
    forall|i: int, j: int, va: Point3D, vb: Point3D|
        0 <= i < tets.len() && 0 <= j < tets.len() && (#[trigger] tets[i].has_vertex(va)) && (
        #[trigger] tets[j].has_vertex(vb)) && va.index == vb.index && va.index
            > spec_af_label_bound(faces, points) ==> va == vb
}

/// The position of the first front face matching `f` as an unordered
/// triple.
pub open spec fn spec_front_match_pos(front: Seq<Face>, f: Face) -> int
    decreases front.len(),
{
    if front.len() == 0 {
        0
    } else if front[0].same(f) {
        0
    } else {
        1 + spec_front_match_pos(front.drop_first(), f)
    }
}

proof fn lemma_front_match_pos(front: Seq<Face>, f: Face, k: int)
    requires
        0 <= k < front.len(),
        front[k].same(f),
        forall|q: int| 0 <= q < k ==> !(#[trigger] front[q]).same(f),
    ensures
        spec_front_match_pos(front, f) == k,
    decreases k,
{
    if k > 0 {
        assert(forall|q: int|
            0 <= q < k - 1 ==> front.drop_first()[q] == #[trigger] front[q + 1]);
        lemma_front_match_pos(front.drop_first(), f, k - 1);
    }
}

/// Finds the first front face matching `face` as an unordered triple.
fn find_front_match(front: &Vec<Face>, face: &Face) -> (r: Option<usize>)
    ensures
        r matches Some(i) ==> i < front@.len() && front@[i as int].same(*face) && forall|q: int|
            0 <= q < i ==> !(#[trigger] front@[q]).same(*face),
        r is None ==> forall|q: int| 0 <= q < front@.len() ==> !(#[trigger] front@[q]).same(*face),
{
    let mut pos: usize = 0;
    while pos < front.len()
        invariant
            0 <= pos <= front@.len(),
            forall|q: int| 0 <= q < pos ==> !(#[trigger] front@[q]).same(*face),
        decreases front@.len() - pos,
    {
        if front[pos].equals(face) {
            return Some(pos);
        }
        pos += 1;
    }
    None
}

/// Removes the first face matching `face` (as an unordered triple) from the
/// front by swapping in the last face; without a match the front is
/// unchanged.
fn remove_face_from_front(
    front: &mut Vec<Face>,
    face: &Face,
    Ghost(initial_faces): Ghost<Seq<Face>>,
    Ghost(initial_points): Ghost<Seq<Point3D>>,
)
    requires
        forall|i: int|
            0 <= i < old(front)@.len() ==> spec_af_face_ok(
                #[trigger] old(front)@[i],
                initial_faces,
                initial_points,
            ),
    ensures
        (exists|m: int| 0 <= m < old(front)@.len() && (#[trigger] old(front)@[m]).same(*face))
            ==> final(front)@ == old(front)@.update(
            spec_front_match_pos(old(front)@, *face),
            old(front)@.last(),
        ).drop_last(),
        (forall|m: int| 0 <= m < old(front)@.len() ==> !(#[trigger] old(front)@[m]).same(*face))
            ==> final(front)@ == old(front)@,
        final(front)@.len() <= old(front)@.len(),
        forall|i: int|
            0 <= i < final(front)@.len() ==> old(front)@.contains(#[trigger] final(front)@[i]),
        forall|i: int|
            0 <= i < final(front)@.len() ==> spec_af_face_ok(
                #[trigger] final(front)@[i],
                initial_faces,
                initial_points,
            ),
{
    let found = find_front_match(front, face);
    if let Some(pos) = found {
        proof {
            lemma_front_match_pos(front@, *face, pos as int);
        }
        let ghost pre = front@;
        front.swap_remove(pos);
        proof {
            assert forall|i: int| 0 <= i < front@.len() implies pre.contains(
                #[trigger] front@[i],
            ) by {
                if i == pos {
                    assert(front@[i] == pre[pre.len() - 1]);
                } else {
                    assert(front@[i] == pre[i]);
                }
            }
        }
    }
}

/// The glue-and-grow front update for one new side face: the face is
/// removed (by swapping in the last face) when an unordered match is
/// already present — it was interior — and appended otherwise.
fn toggle_front_face(
    front: &mut Vec<Face>,
    new_face: Face,
    Ghost(initial_faces): Ghost<Seq<Face>>,
    Ghost(initial_points): Ghost<Seq<Point3D>>,
)
    requires
        spec_af_face_ok(new_face, initial_faces, initial_points),
        forall|i: int|
            0 <= i < old(front)@.len() ==> spec_af_face_ok(
                #[trigger] old(front)@[i],
                initial_faces,
                initial_points,
            ),
    ensures
        (exists|m: int| 0 <= m < old(front)@.len() && (#[trigger] old(front)@[m]).same(new_face))
            ==> final(front)@ == old(front)@.update(
            spec_front_match_pos(old(front)@, new_face),
            old(front)@.last(),
        ).drop_last(),
        (forall|m: int| 0 <= m < old(front)@.len() ==> !(#[trigger] old(front)@[m]).same(new_face))
            ==> final(front)@ == old(front)@.push(new_face),
        final(front)@.len() <= old(front)@.len() + 1,
        forall|i: int|
            0 <= i < final(front)@.len() ==> old(front)@.contains(#[trigger] final(front)@[i])
                || final(front)@[i] == new_face,
        forall|i: int|
            0 <= i < final(front)@.len() ==> spec_af_face_ok(
                #[trigger] final(front)@[i],
                initial_faces,
                initial_points,
            ),
{
    let found = find_front_match(front, &new_face);
    if let Some(pos) = found {
        proof {
            lemma_front_match_pos(front@, new_face, pos as int);
        }
        let ghost pre = front@;
        front.swap_remove(pos);
        proof {
            assert forall|i: int| 0 <= i < front@.len() implies pre.contains(
                #[trigger] front@[i],
            ) by {
                if i == pos {
                    assert(front@[i] == pre[pre.len() - 1]);
                } else {
                    assert(front@[i] == pre[i]);
                }
            }
        }
    } else {
        front.push(new_face);
    }
}

/// The largest caller label of the run, computed over the boundary faces
/// and the initial points.
fn af_label_bound(faces: &Vec<Face>, points: &Vec<Point3D>) -> (bound: i64)
    ensures
        bound as int == spec_af_label_bound(faces@, points@),
        bound >= -1,
{
    let mut bound: i64 = -1;
    let mut i: usize = 0;
    while i < faces.len()
        invariant
            0 <= i <= faces@.len(),
            bound as int == spec_max_face_label(faces@.subrange(0, i as int)),
            bound >= -1,
        decreases faces@.len() - i,
    {
        let f = &faces[i];
        if f.a.index > bound {
            bound = f.a.index;
        }
        if f.b.index > bound {
            bound = f.b.index;
        }
        if f.c.index > bound {
            bound = f.c.index;
        }
        proof {
            assert(faces@.subrange(0, i + 1 as int).drop_last() =~= faces@.subrange(0, i as int));
            assert(faces@.subrange(0, i + 1 as int).last() == faces@[i as int]);
        }
        i += 1;
    }
    proof {
        assert(faces@.subrange(0, faces@.len() as int) =~= faces@);
    }
    let ghost fbound = bound as int;
    let mut j: usize = 0;
    let mut total: i64 = bound;
    while j < points.len()
        invariant
            0 <= j <= points@.len(),
            fbound == spec_max_face_label(faces@),
            total as int == if fbound >= spec_max_point_label(points@.subrange(0, j as int)) {
                fbound
            } else {
                spec_max_point_label(points@.subrange(0, j as int))
            },
            total >= -1,
        decreases points@.len() - j,
    {
        if points[j].index > total {
            total = points[j].index;
        }
        proof {
            assert(points@.subrange(0, j + 1 as int).drop_last() =~= points@.subrange(0, j as int));
            assert(points@.subrange(0, j + 1 as int).last() == points@[j as int]);
        }
        j += 1;
    }
    proof {
        assert(points@.subrange(0, points@.len() as int) =~= points@);
    }
    total
}

/// Generates a tetrahedral mesh by growing inward from a closed boundary
/// surface.
///
/// The front starts as the boundary `faces`.  Each step takes the first
/// front face and asks the caller's `pick_apex` search for an apex: the
/// nearest suitable point of the working list, or a fresh position when
/// none fits (the floating-point side decides both).  A fresh position
/// joins the point list under the next unused label, past every caller
/// label, so synthesized labels collide neither with caller labels nor
/// with each other; an `Existing` answer must name a point of the list
/// that was handed to the search.  The face and the apex form a
/// tetrahedron; the consumed face leaves the front and each of the three
/// side faces is toggled, removed when already present (it was interior)
/// and added otherwise.  The run ends when the front is exhausted or after
/// `100` iterations per initial face, and emits one tetrahedron per
/// iteration: the first one expands the first boundary face, every one
/// records an answer of the search, every vertex is a boundary-face
/// vertex, an initial point or a synthesized point, and a synthesized
/// label always names one single point.
#[verifier::rlimit(100)]
pub fn advancing_front<F: Fn(Face, &Vec<Point3D>) -> FrontChoice>(
    faces: Vec<Face>,
    points: Vec<Point3D>,
    pick_apex: F,
) -> (tetrahedra: Vec<Tetrahedron>)
    requires
        faces@.len() * 100 <= usize::MAX,
        spec_af_label_bound(faces@, points@) + 1 + 100 * faces@.len() <= i64::MAX,
        forall|f: Face, pl: &Vec<Point3D>| #[trigger] call_requires(pick_apex, (f, pl)),
        // the search may only choose an existing point from the list it was given
        forall|f: Face, pl: &Vec<Point3D>, p: Point3D|
            #[trigger] call_ensures(pick_apex, (f, pl), FrontChoice::Existing(p)) ==> pl@.contains(
                p,
            ),
    ensures
        tetrahedra@.len() <= 100 * faces@.len(),
        faces@.len() == 0 ==> tetrahedra@.len() == 0,
        faces@.len() > 0 ==> tetrahedra@.len() >= 1,
        tetrahedra@.len() > 0 ==> tetrahedra@[0].a == faces@[0].a && tetrahedra@[0].b
            == faces@[0].b && tetrahedra@[0].c == faces@[0].c,
        forall|i: int|
            0 <= i < tetrahedra@.len() ==> spec_af_tet_ok(
                #[trigger] tetrahedra@[i],
                faces@,
                points@,
            ),
        forall|i: int|
            0 <= i < tetrahedra@.len() ==> spec_af_tet_from_search(
                #[trigger] tetrahedra@[i],
                faces@,
                points@,
                pick_apex,
            ),
        spec_af_labels_functional(tetrahedra@, faces@, points@),
{
    if faces.len() == 0 {
        return Vec::new();
    }
    let ghost initial_faces = faces@;
    let ghost initial_points = points@;
    let ghost bound = spec_af_label_bound(initial_faces, initial_points);

    let bound_label = af_label_bound(&faces, &points);
    let mut next_label: i64 = bound_label + 1;

    let mut front: Vec<Face> = faces;
    let mut tetrahedra: Vec<Tetrahedron> = Vec::new();
    let mut all_points: Vec<Point3D> = points;

    let max_iterations = front.len() * 100;
    let mut iterations: usize = 0;

    proof {
        lemma_max_face_label_ge(initial_faces);
        lemma_max_point_label_ge(initial_points);
        assert forall|i: int| 0 <= i < front@.len() implies spec_af_face_ok(
            #[trigger] front@[i],
            initial_faces,
            initial_points,
        ) by {
            assert(initial_faces[i].has_vertex(initial_faces[i].a));
            assert(initial_faces[i].has_vertex(initial_faces[i].b));
            assert(initial_faces[i].has_vertex(initial_faces[i].c));
        }
        assert forall|i: int| 0 <= i < all_points@.len() implies spec_af_vertex_ok(
            #[trigger] all_points@[i],
            initial_faces,
            initial_points,
        ) by {
            assert(initial_points[i] == all_points@[i]);
            assert(initial_points.contains(all_points@[i]));
        }
        assert forall|i: int, v: Point3D|
            0 <= i < front@.len() && (#[trigger] front@[i].has_vertex(v)) && v.index > bound
                implies all_points@.contains(v) by {
            assert(initial_faces[i].has_vertex(v));
            assert(v.index <= spec_max_face_label(initial_faces));
        }
        assert(forall|p: int|
            0 <= p < all_points@.len() ==> (#[trigger] all_points@[p]).index < next_label);
    }

    while front.len() > 0 && iterations < max_iterations
        invariant
            iterations <= max_iterations,
            max_iterations == initial_faces.len() * 100,
            initial_faces.len() > 0,
            iterations == 0 ==> front@ == initial_faces,
            tetrahedra@.len() == iterations,
            tetrahedra@.len() > 0 ==> tetrahedra@[0].a == initial_faces[0].a && tetrahedra@[0].b
                == initial_faces[0].b && tetrahedra@[0].c == initial_faces[0].c,
            bound == spec_af_label_bound(initial_faces, initial_points),
            bound + 1 + max_iterations <= i64::MAX,
            bound < next_label,
            next_label <= bound + 1 + iterations,
            forall|f: Face, pl: &Vec<Point3D>| #[trigger] call_requires(pick_apex, (f, pl)),
            forall|f: Face, pl: &Vec<Point3D>, p: Point3D|
                #[trigger] call_ensures(pick_apex, (f, pl), FrontChoice::Existing(p))
                    ==> pl@.contains(p),
            // every held point's label stays below the synthesis counter
            forall|p: int| 0 <= p < all_points@.len() ==> (#[trigger] all_points@[p]).index < next_label,
            // synthesized labels strictly increase along the list
            forall|p: int, q: int|
                0 <= p < q < all_points@.len() && (#[trigger] all_points@[q]).index > bound ==> (
                #[trigger] all_points@[p]).index < all_points@[q].index,
            forall|i: int|
                0 <= i < all_points@.len() ==> spec_af_vertex_ok(
                    #[trigger] all_points@[i],
                    initial_faces,
                    initial_points,
                ),
            forall|i: int|
                0 <= i < front@.len() ==> spec_af_face_ok(
                    #[trigger] front@[i],
                    initial_faces,
                    initial_points,
                ),
            // every vertex above the caller bound that a front face or a
            // result tetrahedron carries is held in the point list
            forall|i: int, v: Point3D|
                0 <= i < front@.len() && (#[trigger] front@[i].has_vertex(v)) && v.index > bound
                    ==> all_points@.contains(v),
            forall|i: int, v: Point3D|
                0 <= i < tetrahedra@.len() && (#[trigger] tetrahedra@[i].has_vertex(v)) && v.index
                    > bound ==> all_points@.contains(v),
            forall|i: int|
                0 <= i < tetrahedra@.len() ==> spec_af_tet_ok(
                    #[trigger] tetrahedra@[i],
                    initial_faces,
                    initial_points,
                ),
            forall|i: int|
                0 <= i < tetrahedra@.len() ==> spec_af_tet_from_search(
                    #[trigger] tetrahedra@[i],
                    initial_faces,
                    initial_points,
                    pick_apex,
                ),
        decreases max_iterations - iterations,
    {
        iterations += 1;
        let face = front[0];

        let ghost front_entry = front@;
        let ghost points_before = all_points@;
        let ghost mut chosen_idx: int = 0;
        let choice = pick_apex(face, &all_points);
        let chosen: Point3D = match choice {
            FrontChoice::Existing(p) => {
                proof {
                    assert(all_points@.contains(p));
                    let w = choose|w: int| 0 <= w < all_points@.len() && all_points@[w] == p;
                    assert(spec_af_vertex_ok(all_points@[w], initial_faces, initial_points));
                    chosen_idx = w;
                }
                p
            },
            FrontChoice::Fresh(x, y, z) => {
                let new_point = Point3D { index: next_label, x, y, z };
                all_points.push(new_point);
                next_label = next_label + 1;
                proof {
                    assert(forall|p: int|
                        0 <= p < points_before.len() ==> all_points@[p] == points_before[p]);
                    chosen_idx = all_points@.len() - 1;
                }
                new_point
            },
        };
        proof {
            assert(0 <= chosen_idx < all_points@.len());
            assert(all_points@[chosen_idx] == chosen);
        }

        let tet = Tetrahedron { a: face.a, b: face.b, c: face.c, d: chosen };
        let ghost tets_before = tetrahedra@;
        tetrahedra.push(tet);
        proof {
            assert(spec_af_tet_from_search(tet, initial_faces, initial_points, pick_apex));
            assert(forall|i: int| 0 <= i < tets_before.len() ==> tetrahedra@[i] == tets_before[i]);
            assert forall|i: int, v: Point3D|
                0 <= i < tetrahedra@.len() && (#[trigger] tetrahedra@[i].has_vertex(v)) && v.index
                    > bound implies all_points@.contains(v) by {
                if i < tets_before.len() {
                    assert(tets_before[i].has_vertex(v));
                    assert(points_before.contains(v) || all_points@.contains(v));
                    if points_before.contains(v) {
                        let w = choose|w: int|
                            0 <= w < points_before.len() && points_before[w] == v;
                        assert(all_points@[w] == v);
                    }
                } else {
                    assert(v == tet.a || v == tet.b || v == tet.c || v == tet.d);
                    if v == tet.d {
                        assert(all_points@[chosen_idx] == chosen);
                        assert(all_points@.contains(chosen));
                    } else {
                        assert(front@[0].has_vertex(v));
                        if v.index > bound {
                            assert(points_before.contains(v));
                            let w = choose|w: int|
                                0 <= w < points_before.len() && points_before[w] == v;
                            assert(all_points@[w] == v);
                        }
                    }
                }
            }
        }

        remove_face_from_front(&mut front, &face, Ghost(initial_faces), Ghost(initial_points));

        let new_face_0 = Face { a: face.a, b: face.b, c: chosen };
        let new_face_1 = Face { a: face.b, b: face.c, c: chosen };
        let new_face_2 = Face { a: face.a, b: face.c, c: chosen };

        let ghost front_removed = front@;
        toggle_front_face(&mut front, new_face_0, Ghost(initial_faces), Ghost(initial_points));
        let ghost front_t0 = front@;
        toggle_front_face(&mut front, new_face_1, Ghost(initial_faces), Ghost(initial_points));
        let ghost front_t1 = front@;
        toggle_front_face(&mut front, new_face_2, Ghost(initial_faces), Ghost(initial_points));
        proof {
            assert forall|i: int, v: Point3D|
                0 <= i < front@.len() && (#[trigger] front@[i].has_vertex(v)) && v.index > bound
                    implies all_points@.contains(v) by {
                let f = front@[i];
                // chase the face back through the three toggles and the removal
                assert(front_t1.contains(f) || f == new_face_2);
                let mut known = f == new_face_0 || f == new_face_1 || f == new_face_2
                    || front_entry.contains(f);
                if front_t1.contains(f) {
                    let w1 = choose|w: int| 0 <= w < front_t1.len() && front_t1[w] == f;
                    assert(front_t0.contains(f) || f == new_face_1);
                    if front_t0.contains(f) {
                        let w0 = choose|w: int| 0 <= w < front_t0.len() && front_t0[w] == f;
                        assert(front_removed.contains(f) || f == new_face_0);
                        if front_removed.contains(f) {
                            let wr = choose|w: int|
                                0 <= w < front_removed.len() && front_removed[w] == f;
                            assert(front_entry.contains(f));
                        }
                    }
                }
                assert(f == new_face_0 || f == new_face_1 || f == new_face_2
                    || front_entry.contains(f));
                if f == new_face_0 || f == new_face_1 || f == new_face_2 {
                    // a side face: its vertices are the expanded face's and the apex
                    assert(v == face.a || v == face.b || v == face.c || v == chosen);
                    if v == chosen {
                        assert(all_points@[chosen_idx] == chosen);
                        assert(all_points@.contains(chosen));
                    } else {
                        assert(front_entry[0].has_vertex(v));
                        assert(points_before.contains(v));
                        let w = choose|w: int|
                            0 <= w < points_before.len() && points_before[w] == v;
                        assert(all_points@[w] == v);
                    }
                } else {
                    let we = choose|w: int|
                        0 <= w < front_entry.len() && front_entry[w] == f;
                    assert(points_before.contains(v));
                    let w = choose|w: int|
                        0 <= w < points_before.len() && points_before[w] == v;
                    assert(all_points@[w] == v);
                }
            }
        }
    }
    proof {
        lemma_af_functional(tetrahedra@, all_points@, initial_faces, initial_points);
    }
    tetrahedra
}

/// Labels past the caller bound name unique points when every such vertex
/// is held in a list whose labels strictly increase past the bound.
proof fn lemma_af_functional(
    tets: Seq<Tetrahedron>,
    all_points: Seq<Point3D>,
    faces: Seq<Face>,
    points: Seq<Point3D>,
)
    requires
        forall|i: int, v: Point3D|
            0 <= i < tets.len() && (#[trigger] tets[i].has_vertex(v)) && v.index
                > spec_af_label_bound(faces, points) ==> all_points.contains(v),
        forall|p: int, q: int|
            0 <= p < q < all_points.len() && (#[trigger] all_points[q]).index
                > spec_af_label_bound(faces, points) ==> (#[trigger] all_points[p]).index
                < all_points[q].index,
    ensures
        spec_af_labels_functional(tets, faces, points),
{
    let bound = spec_af_label_bound(faces, points);
    assert forall|i: int, j: int, va: Point3D, vb: Point3D|
        0 <= i < tets.len() && 0 <= j < tets.len() && (#[trigger] tets[i].has_vertex(va)) && (
        #[trigger] tets[j].has_vertex(vb)) && va.index == vb.index && va.index > bound implies va
        == vb by {
        assert(all_points.contains(va));
        assert(all_points.contains(vb));
        let wa = choose|w: int| 0 <= w < all_points.len() && all_points[w] == va;
        let wb = choose|w: int| 0 <= w < all_points.len() && all_points[w] == vb;
        if wa < wb {
            assert(all_points[wa].index < all_points[wb].index);
        } else if wb < wa {
            assert(all_points[wb].index < all_points[wa].index);
        }
    }
}

/// Every boundary-face vertex label is at most the faces' maximum label.
pub proof fn lemma_max_face_label_ge(faces: Seq<Face>)
    ensures
        forall|i: int, v: Point3D|
            0 <= i < faces.len() && (#[trigger] faces[i].has_vertex(v)) ==> v.index
                <= spec_max_face_label(faces),
    decreases faces.len(),
{
    if faces.len() > 0 {
        lemma_max_face_label_ge(faces.drop_last());
        assert(forall|i: int|
            0 <= i < faces.len() - 1 ==> faces.drop_last()[i] == #[trigger] faces[i]);
        assert forall|i: int, v: Point3D|
            0 <= i < faces.len() && (#[trigger] faces[i].has_vertex(v)) implies v.index
            <= spec_max_face_label(faces) by {
            if i < faces.len() - 1 {
                assert(faces.drop_last()[i].has_vertex(v));
            }
        }
    }
}

/// Every point's label is at most the points' maximum label.
proof fn lemma_max_point_label_ge(points: Seq<Point3D>)
    ensures
        forall|p: int|
            0 <= p < points.len() ==> (#[trigger] points[p]).index <= spec_max_point_label(points),
    decreases points.len(),
{
    if points.len() > 0 {
        lemma_max_point_label_ge(points.drop_last());
        assert(forall|p: int|
            0 <= p < points.len() - 1 ==> points.drop_last()[p] == #[trigger] points[p]);
    }
}

} // verus!
