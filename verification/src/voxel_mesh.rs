use vstd::prelude::*;

use crate::model::{Coord, Point3D, Tetrahedron};

verus! {

/// The label of the grid vertex at integer grid coordinates
/// `(ix, iy, iz)`, shared by every cell that touches the vertex.
pub open spec fn spec_vertex_index(ix: int, iy: int, iz: int, ny: int, nz: int) -> int {
    ix * (ny + 1) * (nz + 1) + iy * (nz + 1) + iz
}

/// The vertex-label quadruples of the five tetrahedra that decompose the
/// grid cell at `(i, j, k)`.
pub open spec fn spec_cell_tets(i: int, j: int, k: int, ny: int, nz: int) -> Seq<
    (int, int, int, int),
> {
    let p0 = spec_vertex_index(i, j, k, ny, nz);
    let p1 = spec_vertex_index(i + 1, j, k, ny, nz);
    let p2 = spec_vertex_index(i + 1, j + 1, k, ny, nz);
    let p3 = spec_vertex_index(i, j + 1, k, ny, nz);
    let p4 = spec_vertex_index(i, j, k + 1, ny, nz);
    let p5 = spec_vertex_index(i + 1, j, k + 1, ny, nz);
    let p6 = spec_vertex_index(i + 1, j + 1, k + 1, ny, nz);
    let p7 = spec_vertex_index(i, j + 1, k + 1, ny, nz);
    seq![(p0, p1, p3, p4), (p1, p2, p3, p6), (p1, p4, p5, p6), (p3, p4, p6, p7), (p1, p3, p4, p6)]
}

/// The vertex labels of a tetrahedron, in field order.
pub open spec fn spec_tet_labels(t: Tetrahedron) -> (int, int, int, int) {
    (t.a.index as int, t.b.index as int, t.c.index as int, t.d.index as int)
}

/// Whether the five tetrahedra of group `g` carry exactly the labels of the
/// decomposition of cell `(i, j, k)`.
pub open spec fn spec_group_matches(
    tets: Seq<Tetrahedron>,
    g: int,
    i: int,
    j: int,
    k: int,
    ny: int,
    nz: int,
) -> bool {
    &&& spec_tet_labels(tets[5 * g]) == spec_cell_tets(i, j, k, ny, nz)[0]
    &&& spec_tet_labels(tets[5 * g + 1]) == spec_cell_tets(i, j, k, ny, nz)[1]
    &&& spec_tet_labels(tets[5 * g + 2]) == spec_cell_tets(i, j, k, ny, nz)[2]
    &&& spec_tet_labels(tets[5 * g + 3]) == spec_cell_tets(i, j, k, ny, nz)[3]
    &&& spec_tet_labels(tets[5 * g + 4]) == spec_cell_tets(i, j, k, ny, nz)[4]
}

/// Whether group `g` is the decomposition of some in-bounds cell that the
/// domain predicate accepted.
pub open spec fn spec_voxel_group_ok<F: Fn(usize, usize, usize) -> bool>(
    tets: Seq<Tetrahedron>,
    g: int,
    nx: int,
    ny: int,
    nz: int,
    cell_inside: F,
) -> bool {
    exists|a: usize, b: usize, c: usize|
        a < nx && b < ny && c < nz && #[trigger] call_ensures(cell_inside, (a, b, c), true)
            && spec_group_matches(tets, g, a as int, b as int, c as int, ny, nz)
}

/// Whether every one of the first `ngroups` groups of five tetrahedra is
/// the decomposition of an accepted cell.
pub open spec fn spec_voxel_groups_ok<F: Fn(usize, usize, usize) -> bool>(
    tets: Seq<Tetrahedron>,
    ngroups: int,
    nx: int,
    ny: int,
    nz: int,
    cell_inside: F,
) -> bool {
    forall|g: int|
        0 <= g < ngroups ==> #[trigger] spec_voxel_group_ok(tets, g, nx, ny, nz, cell_inside)
}

/// Whether `v` is a proper grid vertex: its label is the shared label of
/// some grid position within bounds, and its coordinates are an answer of
/// the `corner` closure for that position.
pub open spec fn spec_grid_vertex_ok<G: Fn(usize, usize, usize) -> (Coord, Coord, Coord)>(
    v: Point3D,
    nx: int,
    ny: int,
    nz: int,
    corner: G,
) -> bool {
    exists|ix: usize, iy: usize, iz: usize|
        ix <= nx && iy <= ny && iz <= nz && v.index == spec_vertex_index(
            ix as int,
            iy as int,
            iz as int,
            ny,
            nz,
        ) && #[trigger] call_ensures(corner, (ix, iy, iz), (v.x, v.y, v.z))
}

/// Whether all four vertices of `t` are proper grid vertices.
pub open spec fn spec_tet_on_grid<G: Fn(usize, usize, usize) -> (Coord, Coord, Coord)>(
    t: Tetrahedron,
    nx: int,
    ny: int,
    nz: int,
    corner: G,
) -> bool {
    &&& spec_grid_vertex_ok(t.a, nx, ny, nz, corner)
    &&& spec_grid_vertex_ok(t.b, nx, ny, nz, corner)
    &&& spec_grid_vertex_ok(t.c, nx, ny, nz, corner)
    &&& spec_grid_vertex_ok(t.d, nx, ny, nz, corner)
}

pub proof fn lemma_vertex_index_bound(ix: int, iy: int, iz: int, nx: int, ny: int, nz: int)
    requires
        0 <= ix <= nx,
        0 <= iy <= ny,
        0 <= iz <= nz,
    ensures
        0 <= ix * (ny + 1) <= nx * (ny + 1),
        0 <= ix * (ny + 1) * (nz + 1),
        ix * (ny + 1) * (nz + 1) + iy * (nz + 1) + iz < (nx + 1) * (ny + 1) * (nz + 1),
        0 <= iy * (nz + 1) <= ny * (nz + 1),
        ny + 1 <= (nx + 1) * (ny + 1) * (nz + 1),
        nz + 1 <= (nx + 1) * (ny + 1) * (nz + 1),
        ix * (ny + 1) <= (nx + 1) * (ny + 1) * (nz + 1),
        ix * (ny + 1) * (nz + 1) <= (nx + 1) * (ny + 1) * (nz + 1),
        iy * (nz + 1) <= (nx + 1) * (ny + 1) * (nz + 1),
{
    assert(ny + 1 <= (nx + 1) * (ny + 1) * (nz + 1) && nz + 1 <= (nx + 1) * (ny + 1) * (nz + 1))
        by (nonlinear_arith)
        requires
            0 <= nx,
            0 <= ny,
            0 <= nz,
    ;
    assert(ix * (ny + 1) <= (nx + 1) * (ny + 1) * (nz + 1) && ix * (ny + 1) * (nz + 1) <= (nx + 1)
        * (ny + 1) * (nz + 1) && iy * (nz + 1) <= (nx + 1) * (ny + 1) * (nz + 1))
        by (nonlinear_arith)
        requires
            0 <= ix <= nx,
            0 <= iy <= ny,
            0 <= nz,
    ;
    assert(0 <= ix * (ny + 1) <= nx * (ny + 1)) by (nonlinear_arith)
        requires
            0 <= ix <= nx,
            0 <= ny,
    ;
    assert(0 <= iy * (nz + 1) <= ny * (nz + 1)) by (nonlinear_arith)
        requires
            0 <= iy <= ny,
            0 <= nz,
    ;
    assert(0 <= ix * (ny + 1) * (nz + 1) && ix * (ny + 1) * (nz + 1) + iy * (nz + 1) + iz < (nx + 1)
        * (ny + 1) * (nz + 1)) by (nonlinear_arith)
        requires
            0 <= ix <= nx,
            0 <= iy <= ny,
            0 <= iz <= nz,
    ;
}

/// Computes the shared grid-vertex label for `(ix, iy, iz)`.
pub(crate) fn vertex_index(ix: usize, iy: usize, iz: usize, nx: usize, ny: usize, nz: usize) -> (idx: i64)
    requires
        ix <= nx,
        iy <= ny,
        iz <= nz,
        (nx + 1) * (ny + 1) * (nz + 1) <= usize::MAX,
        (nx + 1) * (ny + 1) * (nz + 1) <= i64::MAX,
    ensures
        idx as int == spec_vertex_index(ix as int, iy as int, iz as int, ny as int, nz as int),
{
    proof {
        lemma_vertex_index_bound(ix as int, iy as int, iz as int, nx as int, ny as int, nz as int);
    }
    (ix * (ny + 1) * (nz + 1) + iy * (nz + 1) + iz) as i64
}

/// Builds the grid vertex at `(ix, iy, iz)`: the shared label and the
/// coordinates answered by `corner`.
fn grid_point<G: Fn(usize, usize, usize) -> (Coord, Coord, Coord)>(
    ix: usize,
    iy: usize,
    iz: usize,
    nx: usize,
    ny: usize,
    nz: usize,
    corner: &G,
) -> (v: Point3D)
    requires
        ix <= nx,
        iy <= ny,
        iz <= nz,
        (nx + 1) * (ny + 1) * (nz + 1) <= usize::MAX,
        (nx + 1) * (ny + 1) * (nz + 1) <= i64::MAX,
        forall|a: usize, b: usize, c: usize| #[trigger] call_requires(*corner, (a, b, c)),
    ensures
        v.index as int == spec_vertex_index(ix as int, iy as int, iz as int, ny as int, nz as int),
        call_ensures(*corner, (ix, iy, iz), (v.x, v.y, v.z)),
        spec_grid_vertex_ok(v, nx as int, ny as int, nz as int, *corner),
{
    let idx = vertex_index(ix, iy, iz, nx, ny, nz);
    let (x, y, z) = corner(ix, iy, iz);
    Point3D { index: idx, x, y, z }
}

proof fn lemma_groups_ok_extend<F: Fn(usize, usize, usize) -> bool>(
    pre: Seq<Tetrahedron>,
    post: Seq<Tetrahedron>,
    ngroups: int,
    nx: int,
    ny: int,
    nz: int,
    cell_inside: F,
)
    requires
        ngroups >= 0,
        pre.len() == 5 * ngroups,
        post.len() == pre.len() + 5,
        forall|t: int| 0 <= t < pre.len() ==> post[t] == pre[t],
        spec_voxel_groups_ok(pre, ngroups, nx, ny, nz, cell_inside),
        spec_voxel_group_ok(post, ngroups, nx, ny, nz, cell_inside),
    ensures
        spec_voxel_groups_ok(post, ngroups + 1, nx, ny, nz, cell_inside),
{
    assert forall|g: int| 0 <= g < ngroups + 1 implies #[trigger] spec_voxel_group_ok(
        post,
        g,
        nx,
        ny,
        nz,
        cell_inside,
    ) by {
        if g < ngroups {
            assert(spec_voxel_group_ok(pre, g, nx, ny, nz, cell_inside));
            let (a, b, c) = choose|a: usize, b: usize, c: usize|
                a < nx && b < ny && c < nz && #[trigger] call_ensures(cell_inside, (a, b, c), true)
                    && spec_group_matches(pre, g, a as int, b as int, c as int, ny, nz);
            assert(post[5 * g] == pre[5 * g]);
            assert(post[5 * g + 1] == pre[5 * g + 1]);
            assert(post[5 * g + 2] == pre[5 * g + 2]);
            assert(post[5 * g + 3] == pre[5 * g + 3]);
            assert(post[5 * g + 4] == pre[5 * g + 4]);
            assert(spec_group_matches(post, g, a as int, b as int, c as int, ny, nz));
        }
    }
}

/// Generates a tetrahedral volume mesh over a uniform grid of
/// `nx * ny * nz` cells.
///
/// The caller supplies `cell_inside`, which decides whether a cell belongs
/// to the domain (a floating-point front end samples its predicate at the
/// cell center), and `corner`, which yields the coordinates of a grid
/// vertex.  Every accepted cell contributes the standard five-tetrahedron
/// decomposition of its hexahedron, and neighbouring cells reuse the same
/// vertex labels on a shared face, so the mesh is watertight at the label
/// level.  The contract pins the emitted labels exactly: the result is a
/// sequence of groups of five tetrahedra, each group the decomposition of
/// an accepted in-bounds cell, and every vertex carries the shared label of
/// its grid position together with coordinates answered by `corner`.  A
/// predicate that rejects everything yields an empty mesh; one that accepts
/// everything fills all `nx * ny * nz` cells.
pub fn voxel_mesh<
    F: Fn(usize, usize, usize) -> bool,
    G: Fn(usize, usize, usize) -> (Coord, Coord, Coord),
>(
    nx: usize,
    ny: usize,
    nz: usize,
    cell_inside: F,
    corner: G,
) -> (tetrahedra: Vec<Tetrahedron>)
    requires
        (nx + 1) * (ny + 1) * (nz + 1) <= usize::MAX,
        (nx + 1) * (ny + 1) * (nz + 1) <= i64::MAX,
        forall|a: usize, b: usize, c: usize| #[trigger] call_requires(cell_inside, (a, b, c)),
        forall|a: usize, b: usize, c: usize| #[trigger] call_requires(corner, (a, b, c)),
    ensures
        tetrahedra@.len() % 5 == 0,
        tetrahedra@.len() <= 5 * ((nx * ny) * nz),
        spec_voxel_groups_ok(
            tetrahedra@,
            tetrahedra@.len() as int / 5,
            nx as int,
            ny as int,
            nz as int,
            cell_inside,
        ),
        forall|t: int|
            0 <= t < tetrahedra@.len() ==> spec_tet_on_grid(
                #[trigger] tetrahedra@[t],
                nx as int,
                ny as int,
                nz as int,
                corner,
            ),
        (forall|a: (usize, usize, usize), r: bool| call_ensures(cell_inside, a, r) ==> !r)
            ==> tetrahedra@.len() == 0,
        (forall|a: (usize, usize, usize), r: bool| call_ensures(cell_inside, a, r) ==> r)
            ==> tetrahedra@.len() == 5 * (nx * ny * nz),
{
    let mut tetrahedra: Vec<Tetrahedron> = Vec::new();
    let ghost rejects_all = forall|a: (usize, usize, usize), r: bool|
        call_ensures(cell_inside, a, r) ==> !r;
    let ghost accepts_all = forall|a: (usize, usize, usize), r: bool|
        call_ensures(cell_inside, a, r) ==> r;
    let ghost mut ngroups: int = 0;

    let mut i: usize = 0;
    proof {
        assert(0 * (ny as int) * (nz as int) == 0) by (nonlinear_arith);
        assert((0 * (ny as int)) * (nz as int) == 0) by (nonlinear_arith);
        assert(0int <= ((nx as int) * (ny as int)) * (nz as int)) by (nonlinear_arith)
            requires
                0 <= nx as int && 0 <= ny as int && 0 <= nz as int,
        ;
    }
    while i < nx
        invariant
            0 <= i <= nx,
            (nx + 1) * (ny + 1) * (nz + 1) <= usize::MAX,
            (nx + 1) * (ny + 1) * (nz + 1) <= i64::MAX,
            forall|a: usize, b: usize, c: usize| #[trigger] call_requires(cell_inside, (a, b, c)),
            forall|a: usize, b: usize, c: usize| #[trigger] call_requires(corner, (a, b, c)),
            rejects_all == (forall|a: (usize, usize, usize), r: bool|
                call_ensures(cell_inside, a, r) ==> !r),
            accepts_all == (forall|a: (usize, usize, usize), r: bool|
                call_ensures(cell_inside, a, r) ==> r),
            ngroups >= 0,
            tetrahedra@.len() == 5 * ngroups,
            spec_voxel_groups_ok(tetrahedra@, ngroups, nx as int, ny as int, nz as int, cell_inside),
            forall|t: int|
                0 <= t < tetrahedra@.len() ==> spec_tet_on_grid(
                    #[trigger] tetrahedra@[t],
                    nx as int,
                    ny as int,
                    nz as int,
                    corner,
                ),
            rejects_all ==> ngroups == 0,
            ngroups <= (i * ny) * nz,
            (i * ny) * nz <= (nx * ny) * nz,
            accepts_all ==> ngroups == i * ny * nz,
        decreases nx - i,
    {
        let mut j: usize = 0;
        proof {
            assert(0 * (nz as int) == 0) by (nonlinear_arith);
        }
        while j < ny
            invariant
                0 <= i < nx,
                0 <= j <= ny,
                (nx + 1) * (ny + 1) * (nz + 1) <= usize::MAX,
                (nx + 1) * (ny + 1) * (nz + 1) <= i64::MAX,
                forall|a: usize, b: usize, c: usize|
                    #[trigger] call_requires(cell_inside, (a, b, c)),
                forall|a: usize, b: usize, c: usize| #[trigger] call_requires(corner, (a, b, c)),
                rejects_all == (forall|a: (usize, usize, usize), r: bool|
                    call_ensures(cell_inside, a, r) ==> !r),
                accepts_all == (forall|a: (usize, usize, usize), r: bool|
                    call_ensures(cell_inside, a, r) ==> r),
                ngroups >= 0,
                tetrahedra@.len() == 5 * ngroups,
                spec_voxel_groups_ok(
                    tetrahedra@,
                    ngroups,
                    nx as int,
                    ny as int,
                    nz as int,
                    cell_inside,
                ),
                forall|t: int|
                    0 <= t < tetrahedra@.len() ==> spec_tet_on_grid(
                        #[trigger] tetrahedra@[t],
                        nx as int,
                        ny as int,
                        nz as int,
                        corner,
                    ),
                rejects_all ==> ngroups == 0,
                ngroups <= (i * ny) * nz + j * nz,
                (i * ny) * nz + j * nz <= (nx * ny) * nz,
                accepts_all ==> ngroups == i * ny * nz + j * nz,
            decreases ny - j,
        {
            let mut k: usize = 0;
            while k < nz
                invariant
                    0 <= i < nx,
                    0 <= j < ny,
                    0 <= k <= nz,
                    (nx + 1) * (ny + 1) * (nz + 1) <= usize::MAX,
                    (nx + 1) * (ny + 1) * (nz + 1) <= i64::MAX,
                    forall|a: usize, b: usize, c: usize|
                        #[trigger] call_requires(cell_inside, (a, b, c)),
                    forall|a: usize, b: usize, c: usize|
                        #[trigger] call_requires(corner, (a, b, c)),
                    rejects_all == (forall|a: (usize, usize, usize), r: bool|
                        call_ensures(cell_inside, a, r) ==> !r),
                    accepts_all == (forall|a: (usize, usize, usize), r: bool|
                        call_ensures(cell_inside, a, r) ==> r),
                    ngroups >= 0,
                    tetrahedra@.len() == 5 * ngroups,
                    spec_voxel_groups_ok(
                        tetrahedra@,
                        ngroups,
                        nx as int,
                        ny as int,
                        nz as int,
                        cell_inside,
                    ),
                    forall|t: int|
                        0 <= t < tetrahedra@.len() ==> spec_tet_on_grid(
                            #[trigger] tetrahedra@[t],
                            nx as int,
                            ny as int,
                            nz as int,
                            corner,
                        ),
                    rejects_all ==> ngroups == 0,
                    ngroups <= (i * ny) * nz + j * nz + k,
                    (i * ny) * nz + j * nz + k <= (nx * ny) * nz,
                    accepts_all ==> ngroups == i * ny * nz + j * nz + k,
                decreases nz - k,
            {
                let inside = cell_inside(i, j, k);
                if inside {
                    let p0 = grid_point(i, j, k, nx, ny, nz, &corner);
                    let p1 = grid_point(i + 1, j, k, nx, ny, nz, &corner);
                    let p2 = grid_point(i + 1, j + 1, k, nx, ny, nz, &corner);
                    let p3 = grid_point(i, j + 1, k, nx, ny, nz, &corner);
                    let p4 = grid_point(i, j, k + 1, nx, ny, nz, &corner);
                    let p5 = grid_point(i + 1, j, k + 1, nx, ny, nz, &corner);
                    let p6 = grid_point(i + 1, j + 1, k + 1, nx, ny, nz, &corner);
                    let p7 = grid_point(i, j + 1, k + 1, nx, ny, nz, &corner);
                    let ghost pre = tetrahedra@;
                    tetrahedra.push(Tetrahedron { a: p0, b: p1, c: p3, d: p4 });
                    tetrahedra.push(Tetrahedron { a: p1, b: p2, c: p3, d: p6 });
                    tetrahedra.push(Tetrahedron { a: p1, b: p4, c: p5, d: p6 });
                    tetrahedra.push(Tetrahedron { a: p3, b: p4, c: p6, d: p7 });
                    tetrahedra.push(Tetrahedron { a: p1, b: p3, c: p4, d: p6 });
                    proof {
                        assert(tetrahedra@.len() == pre.len() + 5);
                        assert(forall|t: int| 0 <= t < pre.len() ==> tetrahedra@[t] == pre[t]);
                        assert(spec_group_matches(
                            tetrahedra@,
                            ngroups,
                            i as int,
                            j as int,
                            k as int,
                            ny as int,
                            nz as int,
                        ));
                        assert(call_ensures(cell_inside, (i, j, k), true));
                        assert(spec_voxel_group_ok(
                            tetrahedra@,
                            ngroups,
                            nx as int,
                            ny as int,
                            nz as int,
                            cell_inside,
                        ));
                        lemma_groups_ok_extend(
                            pre,
                            tetrahedra@,
                            ngroups,
                            nx as int,
                            ny as int,
                            nz as int,
                            cell_inside,
                        );
                        ngroups = ngroups + 1;
                    }
                }
                k += 1;
                proof {
                    assert((i * ny) * nz + j * nz + k <= (nx * ny) * nz) by (nonlinear_arith)
                        requires
                            0 <= i < nx,
                            0 <= j < ny,
                            0 <= k <= nz,
                    ;
                }
            }
            j += 1;
            proof {
                assert((i * ny) * nz + (j - 1) * nz + nz == (i * ny) * nz + j * nz)
                    by (nonlinear_arith);
                assert((i * ny) * nz + j * nz <= (nx * ny) * nz) by (nonlinear_arith)
                    requires
                        0 <= i < nx,
                        0 <= j <= ny,
                        0 <= nz,
                ;
                if accepts_all {
                    assert((i * ny * nz + (j - 1) * nz + nz) == (i * ny * nz + j * nz))
                        by (nonlinear_arith);
                }
            }
        }
        i += 1;
        proof {
            assert(((i - 1) * ny) * nz + ny * nz == (i * ny) * nz) by (nonlinear_arith);
            assert((i * ny) * nz <= (nx * ny) * nz) by (nonlinear_arith)
                requires
                    0 <= i <= nx,
                    0 <= ny,
                    0 <= nz,
            ;
            if accepts_all {
                assert(((i - 1) * ny * nz + ny * nz) == (i * ny * nz)) by (nonlinear_arith);
            }
        }
    }
    proof {
        assert(tetrahedra@.len() as int / 5 == ngroups);
        if accepts_all {
            assert(5 * (nx as int * (ny as int) * (nz as int)) == tetrahedra@.len());
        }
    }
    tetrahedra
}

} // verus!
