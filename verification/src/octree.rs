use vstd::prelude::*;

use crate::model::{Coord, Point3D, Tetrahedron};

verus! {

/// An axis-aligned box held as six opaque coordinates.
struct Bounds {
    min_x: Coord,
    min_y: Coord,
    min_z: Coord,
    max_x: Coord,
    max_y: Coord,
    max_z: Coord,
}

/// The number of leaf cells of a full octree of the given depth.
pub open spec fn spec_pow8(d: nat) -> nat
    decreases d,
{
    if d == 0 {
        1
    } else {
        8 * spec_pow8((d - 1) as nat)
    }
}

proof fn lemma_pow8_pos(d: nat)
    ensures
        spec_pow8(d) >= 1,
    decreases d,
{
    if d > 0 {
        lemma_pow8_pos((d - 1) as nat);
    }
}

/// Whether every vertex label of `t` lies in `[lo, hi)`.
pub open spec fn spec_tet_indices_in(t: Tetrahedron, lo: int, hi: int) -> bool {
    &&& lo <= t.a.index < hi
    &&& lo <= t.b.index < hi
    &&& lo <= t.c.index < hi
    &&& lo <= t.d.index < hi
}

/// The five vertex-label quadruples of an octree leaf whose eight fresh
/// labels start at `base`, in the order of the five-tetrahedron
/// decomposition.
pub open spec fn spec_leaf_tets(base: int) -> Seq<(int, int, int, int)> {
    seq![
        (base, base + 1, base + 3, base + 4),
        (base + 1, base + 2, base + 3, base + 6),
        (base + 1, base + 4, base + 5, base + 6),
        (base + 3, base + 4, base + 6, base + 7),
        (base + 1, base + 3, base + 4, base + 6),
    ]
}

/// Whether leaf number `m` of a subdivision that appended tetrahedra from
/// slot `first_tet` on, with fresh labels from `first_label` on, is well
/// formed: its five tetrahedra carry exactly the labels `first_label + 8 m`
/// to `first_label + 8 m + 7` in the decomposition pattern, and its center
/// was accepted by the domain predicate.
/// Whether `p` carries exactly the coordinates `(x, y, z)`.
pub open spec fn spec_point_coords(p: Point3D, x: Coord, y: Coord, z: Coord) -> bool {
    p.x == x && p.y == y && p.z == z
}

/// Whether the five tetrahedra at `at` decompose the axis-aligned cell
/// from `(x0, y0, z0)` to `(x1, y1, z1)`: each vertex sits on one of the
/// cell's eight corners, in the fixed five-tetrahedron pattern.
pub open spec fn spec_leaf_corner_coords(
    tets: Seq<Tetrahedron>,
    at: int,
    x0: Coord,
    y0: Coord,
    z0: Coord,
    x1: Coord,
    y1: Coord,
    z1: Coord,
) -> bool {
    &&& spec_point_coords(tets[at].a, x0, y0, z0)
    &&& spec_point_coords(tets[at].b, x1, y0, z0)
    &&& spec_point_coords(tets[at].c, x0, y1, z0)
    &&& spec_point_coords(tets[at].d, x0, y0, z1)
    &&& spec_point_coords(tets[at + 1].a, x1, y0, z0)
    &&& spec_point_coords(tets[at + 1].b, x1, y1, z0)
    &&& spec_point_coords(tets[at + 1].c, x0, y1, z0)
    &&& spec_point_coords(tets[at + 1].d, x1, y1, z1)
    &&& spec_point_coords(tets[at + 2].a, x1, y0, z0)
    &&& spec_point_coords(tets[at + 2].b, x0, y0, z1)
    &&& spec_point_coords(tets[at + 2].c, x1, y0, z1)
    &&& spec_point_coords(tets[at + 2].d, x1, y1, z1)
    &&& spec_point_coords(tets[at + 3].a, x0, y1, z0)
    &&& spec_point_coords(tets[at + 3].b, x0, y0, z1)
    &&& spec_point_coords(tets[at + 3].c, x1, y1, z1)
    &&& spec_point_coords(tets[at + 3].d, x0, y1, z1)
    &&& spec_point_coords(tets[at + 4].a, x1, y0, z0)
    &&& spec_point_coords(tets[at + 4].b, x0, y1, z0)
    &&& spec_point_coords(tets[at + 4].c, x0, y0, z1)
    &&& spec_point_coords(tets[at + 4].d, x1, y1, z1)
}

pub open spec fn spec_octree_leaf_ok_m<F: Fn(Point3D) -> bool, H: Fn(Coord, Coord) -> Coord>(
    tets: Seq<Tetrahedron>,
    first_tet: int,
    first_label: int,
    m: int,
    is_inside: F,
    mid: H,
) -> bool {
    let at = first_tet + 5 * m;
    let base = first_label + 8 * m;
    &&& crate::voxel_mesh::spec_tet_labels(tets[at]) == spec_leaf_tets(base)[0]
    &&& crate::voxel_mesh::spec_tet_labels(tets[at + 1]) == spec_leaf_tets(base)[1]
    &&& crate::voxel_mesh::spec_tet_labels(tets[at + 2]) == spec_leaf_tets(base)[2]
    &&& crate::voxel_mesh::spec_tet_labels(tets[at + 3]) == spec_leaf_tets(base)[3]
    &&& crate::voxel_mesh::spec_tet_labels(tets[at + 4]) == spec_leaf_tets(base)[4]
    &&& exists|x0: Coord, y0: Coord, z0: Coord, x1: Coord, y1: Coord, z1: Coord, ctr: Point3D|
        #![trigger call_ensures(mid, (x0, x1), ctr.x), call_ensures(mid, (y0, y1), ctr.y), call_ensures(mid, (z0, z1), ctr.z)]
        {
            &&& spec_leaf_corner_coords(tets, at, x0, y0, z0, x1, y1, z1)
            &&& call_ensures(mid, (x0, x1), ctr.x)
            &&& call_ensures(mid, (y0, y1), ctr.y)
            &&& call_ensures(mid, (z0, z1), ctr.z)
            &&& call_ensures(is_inside, (ctr,), true)
        }
}

/// How one subdivision step grew the mesh: `leaves` accepted leaves, eight
/// fresh labels and five tetrahedra for each.
pub open spec fn spec_subdivide_count(
    leaves: int,
    old_n: int,
    new_n: int,
    old_len: int,
    new_len: int,
    cap: nat,
) -> bool {
    &&& 0 <= leaves <= cap
    &&& new_n == old_n + 8 * leaves
    &&& new_len == old_len + 5 * leaves
}

/// The shape of a finished octree mesh: five tetrahedra per accepted leaf,
/// every vertex label fresh and below `8 * leaves`.
pub open spec fn spec_octree_result(tets: Seq<Tetrahedron>, leaves: int, cap: nat) -> bool {
    &&& 0 <= leaves <= cap
    &&& tets.len() == 5 * leaves
    &&& forall|t: int|
        0 <= t < tets.len() ==> spec_tet_indices_in(#[trigger] tets[t], 0, 8 * leaves)
}

#[verifier::rlimit(100)]
fn subdivide<F: Fn(Point3D) -> bool, H: Fn(Coord, Coord) -> Coord>(
    b: Bounds,
    depth: usize,
    max_depth: usize,
    is_inside: &F,
    mid: &H,
    next_index: &mut i64,
    tetrahedra: &mut Vec<Tetrahedron>,
)
    requires
        depth <= max_depth,
        0 <= *old(next_index),
        *old(next_index) + 8 * spec_pow8((max_depth - depth) as nat) <= i64::MAX,
        forall|p: Point3D| #[trigger] call_requires(*is_inside, (p,)),
        forall|a: Coord, c: Coord| #[trigger] call_requires(*mid, (a, c)),
    ensures
        exists|leaves: int|
            #[trigger] spec_subdivide_count(
                leaves,
                *old(next_index) as int,
                *final(next_index) as int,
                old(tetrahedra)@.len() as int,
                final(tetrahedra)@.len() as int,
                spec_pow8((max_depth - depth) as nat),
            ),
        forall|t: int|
            0 <= t < old(tetrahedra)@.len() ==> final(tetrahedra)@[t] == old(tetrahedra)@[t],
        forall|t: int|
            old(tetrahedra)@.len() <= t < final(tetrahedra)@.len() ==> spec_tet_indices_in(
                #[trigger] final(tetrahedra)@[t],
                *old(next_index) as int,
                *final(next_index) as int,
            ),
        forall|m: int|
            0 <= m && old(tetrahedra)@.len() + 5 * m + 5 <= final(tetrahedra)@.len()
                ==> #[trigger] spec_octree_leaf_ok_m(
                final(tetrahedra)@,
                old(tetrahedra)@.len() as int,
                *old(next_index) as int,
                m,
                *is_inside,
                *mid,
            ),
        (forall|a: (Point3D,), r: bool| call_ensures(*is_inside, a, r) ==> !r)
            ==> final(tetrahedra)@ == old(tetrahedra)@ && *final(next_index) == *old(next_index),
        (forall|a: (Point3D,), r: bool| call_ensures(*is_inside, a, r) ==> r)
            ==> *final(next_index) == *old(next_index) + 8 * spec_pow8((max_depth - depth) as nat),
    decreases max_depth - depth,
{
    proof {
        lemma_pow8_pos((max_depth - depth) as nat);
    }
    if depth >= max_depth {
        let center = Point3D {
            index: -1,
            x: mid(b.min_x, b.max_x),
            y: mid(b.min_y, b.max_y),
            z: mid(b.min_z, b.max_z),
        };
        if !is_inside(center) {
            proof {
                assert(spec_subdivide_count(
                    0,
                    *old(next_index) as int,
                    *next_index as int,
                    old(tetrahedra)@.len() as int,
                    tetrahedra@.len() as int,
                    spec_pow8((max_depth - depth) as nat),
                ));
            }
            return ;
        }
        let idx = *next_index;
        *next_index = *next_index + 8;
        let p0 = Point3D { index: idx, x: b.min_x, y: b.min_y, z: b.min_z };
        let p1 = Point3D { index: idx + 1, x: b.max_x, y: b.min_y, z: b.min_z };
        let p2 = Point3D { index: idx + 2, x: b.max_x, y: b.max_y, z: b.min_z };
        let p3 = Point3D { index: idx + 3, x: b.min_x, y: b.max_y, z: b.min_z };
        let p4 = Point3D { index: idx + 4, x: b.min_x, y: b.min_y, z: b.max_z };
        let p5 = Point3D { index: idx + 5, x: b.max_x, y: b.min_y, z: b.max_z };
        let p6 = Point3D { index: idx + 6, x: b.max_x, y: b.max_y, z: b.max_z };
        let p7 = Point3D { index: idx + 7, x: b.min_x, y: b.max_y, z: b.max_z };
        tetrahedra.push(Tetrahedron { a: p0, b: p1, c: p3, d: p4 });
        tetrahedra.push(Tetrahedron { a: p1, b: p2, c: p3, d: p6 });
        tetrahedra.push(Tetrahedron { a: p1, b: p4, c: p5, d: p6 });
        tetrahedra.push(Tetrahedron { a: p3, b: p4, c: p6, d: p7 });
        tetrahedra.push(Tetrahedron { a: p1, b: p3, c: p4, d: p6 });
        proof {
            assert(spec_subdivide_count(
                1,
                *old(next_index) as int,
                *next_index as int,
                old(tetrahedra)@.len() as int,
                tetrahedra@.len() as int,
                spec_pow8((max_depth - depth) as nat),
            ));
            assert(call_ensures(*is_inside, (center,), true));
            assert(spec_leaf_corner_coords(
                tetrahedra@,
                old(tetrahedra)@.len() as int,
                b.min_x,
                b.min_y,
                b.min_z,
                b.max_x,
                b.max_y,
                b.max_z,
            ));
            assert(call_ensures(*mid, (b.min_x, b.max_x), center.x));
            assert(call_ensures(*mid, (b.min_y, b.max_y), center.y));
            assert(call_ensures(*mid, (b.min_z, b.max_z), center.z));
            assert(spec_octree_leaf_ok_m(
                tetrahedra@,
                old(tetrahedra)@.len() as int,
                *old(next_index) as int,
                0,
                *is_inside,
                *mid,
            ));
        }
        return ;
    }
    let mid_x = mid(b.min_x, b.max_x);
    let mid_y = mid(b.min_y, b.max_y);
    let mid_z = mid(b.min_z, b.max_z);
    let ghost d_rem = (max_depth - depth) as nat;
    let ghost d_sub = (max_depth - depth - 1) as nat;
    let ghost n0 = *next_index;
    let ghost v0 = tetrahedra@;
    proof {
        assert(spec_pow8(d_rem) == 8 * spec_pow8(d_sub));
        lemma_pow8_pos(d_sub);
    }

    let o0 = Bounds {
        min_x: b.min_x,
        min_y: b.min_y,
        min_z: b.min_z,
        max_x: mid_x,
        max_y: mid_y,
        max_z: mid_z,
    };
    let o1 = Bounds {
        min_x: mid_x,
        min_y: b.min_y,
        min_z: b.min_z,
        max_x: b.max_x,
        max_y: mid_y,
        max_z: mid_z,
    };
    let o2 = Bounds {
        min_x: b.min_x,
        min_y: mid_y,
        min_z: b.min_z,
        max_x: mid_x,
        max_y: b.max_y,
        max_z: mid_z,
    };
    let o3 = Bounds {
        min_x: mid_x,
        min_y: mid_y,
        min_z: b.min_z,
        max_x: b.max_x,
        max_y: b.max_y,
        max_z: mid_z,
    };
    let o4 = Bounds {
        min_x: b.min_x,
        min_y: b.min_y,
        min_z: mid_z,
        max_x: mid_x,
        max_y: mid_y,
        max_z: b.max_z,
    };
    let o5 = Bounds {
        min_x: mid_x,
        min_y: b.min_y,
        min_z: mid_z,
        max_x: b.max_x,
        max_y: mid_y,
        max_z: b.max_z,
    };
    let o6 = Bounds {
        min_x: b.min_x,
        min_y: mid_y,
        min_z: mid_z,
        max_x: mid_x,
        max_y: b.max_y,
        max_z: b.max_z,
    };
    let o7 = Bounds {
        min_x: mid_x,
        min_y: mid_y,
        min_z: mid_z,
        max_x: b.max_x,
        max_y: b.max_y,
        max_z: b.max_z,
    };

    subdivide(o0, depth + 1, max_depth, is_inside, mid, next_index, tetrahedra);
    let ghost n1 = *next_index as int;
    let ghost v1 = tetrahedra@;
    subdivide(o1, depth + 1, max_depth, is_inside, mid, next_index, tetrahedra);
    let ghost n2 = *next_index as int;
    let ghost v2 = tetrahedra@;
    subdivide(o2, depth + 1, max_depth, is_inside, mid, next_index, tetrahedra);
    let ghost n3 = *next_index as int;
    let ghost v3 = tetrahedra@;
    subdivide(o3, depth + 1, max_depth, is_inside, mid, next_index, tetrahedra);
    let ghost n4 = *next_index as int;
    let ghost v4 = tetrahedra@;
    subdivide(o4, depth + 1, max_depth, is_inside, mid, next_index, tetrahedra);
    let ghost n5 = *next_index as int;
    let ghost v5 = tetrahedra@;
    subdivide(o5, depth + 1, max_depth, is_inside, mid, next_index, tetrahedra);
    let ghost n6 = *next_index as int;
    let ghost v6 = tetrahedra@;
    subdivide(o6, depth + 1, max_depth, is_inside, mid, next_index, tetrahedra);
    let ghost n7 = *next_index as int;
    let ghost v7 = tetrahedra@;
    subdivide(o7, depth + 1, max_depth, is_inside, mid, next_index, tetrahedra);
    let ghost n8 = *next_index as int;
    let ghost v8 = tetrahedra@;
    proof {
        let cap = spec_pow8(d_sub);
        let l0 = choose|l: int| #[trigger] spec_subdivide_count(l, n0 as int, n1, v0.len() as int, v1.len() as int, cap);
        let l1 = choose|l: int| #[trigger] spec_subdivide_count(l, n1, n2, v1.len() as int, v2.len() as int, cap);
        let l2 = choose|l: int| #[trigger] spec_subdivide_count(l, n2, n3, v2.len() as int, v3.len() as int, cap);
        let l3 = choose|l: int| #[trigger] spec_subdivide_count(l, n3, n4, v3.len() as int, v4.len() as int, cap);
        let l4 = choose|l: int| #[trigger] spec_subdivide_count(l, n4, n5, v4.len() as int, v5.len() as int, cap);
        let l5 = choose|l: int| #[trigger] spec_subdivide_count(l, n5, n6, v5.len() as int, v6.len() as int, cap);
        let l6 = choose|l: int| #[trigger] spec_subdivide_count(l, n6, n7, v6.len() as int, v7.len() as int, cap);
        let l7 = choose|l: int| #[trigger] spec_subdivide_count(l, n7, n8, v7.len() as int, v8.len() as int, cap);
        let total = l0 + l1 + l2 + l3 + l4 + l5 + l6 + l7;
        assert(spec_subdivide_count(
            total,
            *old(next_index) as int,
            *next_index as int,
            old(tetrahedra)@.len() as int,
            tetrahedra@.len() as int,
            spec_pow8(d_rem),
        ));
        let l0 = choose|l: int| #[trigger] spec_subdivide_count(l, n0 as int, n1, v0.len() as int, v1.len() as int, cap);
        let l1x = choose|l: int| #[trigger] spec_subdivide_count(l, n1, n2, v1.len() as int, v2.len() as int, cap);
        let l2x = choose|l: int| #[trigger] spec_subdivide_count(l, n2, n3, v2.len() as int, v3.len() as int, cap);
        let l3x = choose|l: int| #[trigger] spec_subdivide_count(l, n3, n4, v3.len() as int, v4.len() as int, cap);
        let l4x = choose|l: int| #[trigger] spec_subdivide_count(l, n4, n5, v4.len() as int, v5.len() as int, cap);
        let l5x = choose|l: int| #[trigger] spec_subdivide_count(l, n5, n6, v5.len() as int, v6.len() as int, cap);
        let l6x = choose|l: int| #[trigger] spec_subdivide_count(l, n6, n7, v6.len() as int, v7.len() as int, cap);
        let l7x = choose|l: int| #[trigger] spec_subdivide_count(l, n7, n8, v7.len() as int, v8.len() as int, cap);
        assert forall|m: int|
            0 <= m && v0.len() + 5 * m + 5 <= tetrahedra@.len() implies
            #[trigger] spec_octree_leaf_ok_m(
            tetrahedra@,
            v0.len() as int,
            n0 as int,
            m,
            *is_inside,
            *mid,
        ) by {
            let at = v0.len() + 5 * m;
            if at + 5 <= v1.len() {
                assert(spec_octree_leaf_ok_m(v1, v0.len() as int, n0 as int, m, *is_inside, *mid));
                assert(forall|t: int| 0 <= t < v1.len() ==> tetrahedra@[t] == v1[t]);
            } else if at + 5 <= v2.len() {
                assert(spec_octree_leaf_ok_m(v2, v1.len() as int, n1, m - l0, *is_inside, *mid));
                assert(forall|t: int| 0 <= t < v2.len() ==> tetrahedra@[t] == v2[t]);
            } else if at + 5 <= v3.len() {
                assert(spec_octree_leaf_ok_m(v3, v2.len() as int, n2, m - l0 - l1x, *is_inside, *mid));
                assert(forall|t: int| 0 <= t < v3.len() ==> tetrahedra@[t] == v3[t]);
            } else if at + 5 <= v4.len() {
                assert(spec_octree_leaf_ok_m(
                    v4,
                    v3.len() as int,
                    n3,
                    m - l0 - l1x - l2x,
                    *is_inside,
                    *mid,
                ));
                assert(forall|t: int| 0 <= t < v4.len() ==> tetrahedra@[t] == v4[t]);
            } else if at + 5 <= v5.len() {
                assert(spec_octree_leaf_ok_m(
                    v5,
                    v4.len() as int,
                    n4,
                    m - l0 - l1x - l2x - l3x,
                    *is_inside,
                    *mid,
                ));
                assert(forall|t: int| 0 <= t < v5.len() ==> tetrahedra@[t] == v5[t]);
            } else if at + 5 <= v6.len() {
                assert(spec_octree_leaf_ok_m(
                    v6,
                    v5.len() as int,
                    n5,
                    m - l0 - l1x - l2x - l3x - l4x,
                    *is_inside,
                    *mid,
                ));
                assert(forall|t: int| 0 <= t < v6.len() ==> tetrahedra@[t] == v6[t]);
            } else if at + 5 <= v7.len() {
                assert(spec_octree_leaf_ok_m(
                    v7,
                    v6.len() as int,
                    n6,
                    m - l0 - l1x - l2x - l3x - l4x - l5x,
                    *is_inside,
                    *mid,
                ));
                assert(forall|t: int| 0 <= t < v7.len() ==> tetrahedra@[t] == v7[t]);
            } else {
                assert(spec_octree_leaf_ok_m(
                    v8,
                    v7.len() as int,
                    n7,
                    m - l0 - l1x - l2x - l3x - l4x - l5x - l6x,
                    *is_inside,
                    *mid,
                ));
                assert(tetrahedra@ == v8);
            }
        }
        assert forall|t: int|
            old(tetrahedra)@.len() <= t < tetrahedra@.len() implies spec_tet_indices_in(
            #[trigger] tetrahedra@[t],
            *old(next_index) as int,
            *next_index as int,
        ) by {
            if t < v1.len() {
                assert(tetrahedra@[t] == v1[t]);
                assert(spec_tet_indices_in(v1[t], n0 as int, n1));
            } else if t < v2.len() {
                assert(tetrahedra@[t] == v2[t]);
                assert(spec_tet_indices_in(v2[t], n1, n2));
            } else if t < v3.len() {
                assert(tetrahedra@[t] == v3[t]);
                assert(spec_tet_indices_in(v3[t], n2, n3));
            } else if t < v4.len() {
                assert(tetrahedra@[t] == v4[t]);
                assert(spec_tet_indices_in(v4[t], n3, n4));
            } else if t < v5.len() {
                assert(tetrahedra@[t] == v5[t]);
                assert(spec_tet_indices_in(v5[t], n4, n5));
            } else if t < v6.len() {
                assert(tetrahedra@[t] == v6[t]);
                assert(spec_tet_indices_in(v6[t], n5, n6));
            } else if t < v7.len() {
                assert(tetrahedra@[t] == v7[t]);
                assert(spec_tet_indices_in(v7[t], n6, n7));
            } else {
                assert(spec_tet_indices_in(tetrahedra@[t], n7, n8));
            }
        }
    }
}

/// Generates a tetrahedral mesh by recursive octree subdivision.
///
/// The box from `min` to `max` is split into octants down to `max_depth`
/// levels; a leaf whose center the `is_inside` closure accepts contributes
/// the five-tetrahedron decomposition of its cell.  `mid` supplies the
/// midpoint of two coordinates (a floating-point front end averages them).
/// Leaf cells do not share vertex labels: every accepted leaf consumes
/// eight fresh consecutive labels, so all labels of the result lie in
/// `[0, 8 l)` for `l` accepted leaves.  A predicate that rejects everything
/// yields an empty mesh; one that accepts everything fills all `8 ^
/// max_depth` leaves.
pub fn octree_mesh<F: Fn(Point3D) -> bool, H: Fn(Coord, Coord) -> Coord>(
    min: Point3D,
    max: Point3D,
    max_depth: usize,
    is_inside: F,
    mid: H,
) -> (tetrahedra: Vec<Tetrahedron>)
    requires
        8 * spec_pow8(max_depth as nat) <= i64::MAX,
        forall|p: Point3D| #[trigger] call_requires(is_inside, (p,)),
        forall|a: Coord, c: Coord| #[trigger] call_requires(mid, (a, c)),
    ensures
        exists|leaves: int|
            #[trigger] spec_octree_result(tetrahedra@, leaves, spec_pow8(max_depth as nat)),
        // the m-th accepted leaf occupies five consecutive slots, carries
        // exactly the eight fresh labels from 8 m on, and its center was
        // accepted by the domain predicate
        forall|m: int|
            0 <= m && 5 * m + 5 <= tetrahedra@.len() ==> #[trigger] spec_octree_leaf_ok_m(
                tetrahedra@,
                0,
                0,
                m,
                is_inside,
                mid,
            ),
        (forall|a: (Point3D,), r: bool| call_ensures(is_inside, a, r) ==> !r) ==> tetrahedra@.len()
            == 0,
        (forall|a: (Point3D,), r: bool| call_ensures(is_inside, a, r) ==> r) ==> tetrahedra@.len()
            == 5 * spec_pow8(max_depth as nat),
{
    let mut tetrahedra: Vec<Tetrahedron> = Vec::new();
    let mut next_index: i64 = 0;
    let bounds = Bounds {
        min_x: min.x,
        min_y: min.y,
        min_z: min.z,
        max_x: max.x,
        max_y: max.y,
        max_z: max.z,
    };
    subdivide(
        bounds,
        0,
        max_depth,
        &is_inside,
        &mid,
        &mut next_index,
        &mut tetrahedra,
    );
    proof {
        let l = choose|l: int|
            #[trigger] spec_subdivide_count(
                l,
                0,
                next_index as int,
                0,
                tetrahedra@.len() as int,
                spec_pow8((max_depth - 0) as nat),
            );
        assert(spec_octree_result(tetrahedra@, l, spec_pow8(max_depth as nat)));
    }
    tetrahedra
}

} // verus!
