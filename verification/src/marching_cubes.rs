use vstd::prelude::*;

use crate::model::{Coord, Face, Point3D};
use crate::voxel_mesh::{lemma_vertex_index_bound, spec_vertex_index, vertex_index};

verus! {

/// Whether `v` lies on an active grid edge: its coordinates are an answer
/// of the `interp` closure for a pair of grid-vertex labels whose samples
/// straddle the iso value.
pub open spec fn spec_mc_vertex_on_edge<I: Fn(u64, u64) -> (Coord, Coord, Coord)>(
    v: Point3D,
    below: Seq<bool>,
    interp: I,
) -> bool {
    exists|ga: u64, gb: u64|
        ga < below.len() && gb < below.len() && below[ga as int] != below[gb as int]
            && #[trigger] call_ensures(interp, (ga, gb), (v.x, v.y, v.z))
}

/// Whether face number `fi` of a marching-cubes result is well formed: its
/// vertices carry the fresh consecutive labels `3 fi`, `3 fi + 1`,
/// `3 fi + 2`, and each lies on an active grid edge.
pub open spec fn spec_mc_face_ok<I: Fn(u64, u64) -> (Coord, Coord, Coord)>(
    f: Face,
    fi: int,
    below: Seq<bool>,
    interp: I,
) -> bool {
    &&& f.a.index == 3 * fi
    &&& f.b.index == 3 * fi + 1
    &&& f.c.index == 3 * fi + 2
    &&& spec_mc_vertex_on_edge(f.a, below, interp)
    &&& spec_mc_vertex_on_edge(f.b, below, interp)
    &&& spec_mc_vertex_on_edge(f.c, below, interp)
}

/// Whether every face of the sequence is well formed.
pub open spec fn spec_mc_faces_ok<I: Fn(u64, u64) -> (Coord, Coord, Coord)>(
    faces: Seq<Face>,
    below: Seq<bool>,
    interp: I,
) -> bool {
    forall|fi: int| 0 <= fi < faces.len() ==> spec_mc_face_ok(#[trigger] faces[fi], fi, below, interp)
}

/// The grid position of cube corner `m` of the cell at `(i, j, k)`,
/// following the classical corner numbering: corners `0` to `3` ring the
/// bottom face counterclockwise, corners `4` to `7` sit above them.
pub open spec fn spec_corner_gid(m: int, i: int, j: int, k: int, ny: int, nz: int) -> int {
    if m == 0 {
        spec_vertex_index(i, j, k, ny, nz)
    } else if m == 1 {
        spec_vertex_index(i + 1, j, k, ny, nz)
    } else if m == 2 {
        spec_vertex_index(i + 1, j + 1, k, ny, nz)
    } else if m == 3 {
        spec_vertex_index(i, j + 1, k, ny, nz)
    } else if m == 4 {
        spec_vertex_index(i, j, k + 1, ny, nz)
    } else if m == 5 {
        spec_vertex_index(i + 1, j, k + 1, ny, nz)
    } else if m == 6 {
        spec_vertex_index(i + 1, j + 1, k + 1, ny, nz)
    } else {
        spec_vertex_index(i, j + 1, k + 1, ny, nz)
    }
}

/// The two corner numbers that cube edge `e` connects.
pub open spec fn spec_edge_corners(e: int) -> (int, int) {
    if e == 0 {
        (0, 1)
    } else if e == 1 {
        (1, 2)
    } else if e == 2 {
        (2, 3)
    } else if e == 3 {
        (3, 0)
    } else if e == 4 {
        (4, 5)
    } else if e == 5 {
        (5, 6)
    } else if e == 6 {
        (6, 7)
    } else if e == 7 {
        (7, 4)
    } else if e == 8 {
        (0, 4)
    } else if e == 9 {
        (1, 5)
    } else if e == 10 {
        (2, 6)
    } else {
        (3, 7)
    }
}

/// Whether cube edge `e` is active, judged from the eight corner
/// classifications directly.
pub open spec fn spec_edge_active_bools(
    e: int,
    c0: bool,
    c1: bool,
    c2: bool,
    c3: bool,
    c4: bool,
    c5: bool,
    c6: bool,
    c7: bool,
) -> bool {
    if e == 0 {
        c0 != c1
    } else if e == 1 {
        c1 != c2
    } else if e == 2 {
        c2 != c3
    } else if e == 3 {
        c3 != c0
    } else if e == 4 {
        c4 != c5
    } else if e == 5 {
        c5 != c6
    } else if e == 6 {
        c6 != c7
    } else if e == 7 {
        c7 != c4
    } else if e == 8 {
        c0 != c4
    } else if e == 9 {
        c1 != c5
    } else if e == 10 {
        c2 != c6
    } else {
        c3 != c7
    }
}

/// Whether `x` is an edge of some segment of `segs`.
pub open spec fn spec_edge_of_segs(segs: Seq<(usize, usize)>, x: usize) -> bool {
    exists|s: int| 0 <= s < segs.len() && ((#[trigger] segs[s]).0 == x || segs[s].1 == x)
}

/// The admissible forms of one boundary segment on a cube face whose
/// corner states are b0..b3 and whose edge slots are s0..s3: each form
/// joins two active edges of the face.
pub open spec fn spec_seg_shape(
    sg: (usize, usize),
    b0: bool,
    b1: bool,
    b2: bool,
    b3: bool,
    s0: usize,
    s1: usize,
    s2: usize,
    s3: usize,
) -> bool {
    ||| (sg == (s3, s0) && b3 != b0 && b0 != b1)
    ||| (sg == (s0, s1) && b0 != b1 && b1 != b2)
    ||| (sg == (s1, s2) && b1 != b2 && b2 != b3)
    ||| (sg == (s2, s3) && b2 != b3 && b3 != b0)
    ||| (sg == (s3, s1) && b3 != b0 && b1 != b2)
    ||| (sg == (s0, s2) && b0 != b1 && b2 != b3)
    ||| (sg == (s1, s3) && b1 != b2 && b3 != b0)
    ||| (sg == (s2, s0) && b2 != b3 && b0 != b1)
}

/// What one cube face contributed to a segment list: the entries of
/// `[lo, hi)` pair up distinct active slot edges, every active slot edge is
/// covered, the pairs are edge-disjoint, and a mixed face contributes at
/// least one segment.
pub open spec fn spec_face_range_ok(
    segs: Seq<(usize, usize)>,
    lo: int,
    hi: int,
    b0: bool,
    b1: bool,
    b2: bool,
    b3: bool,
    s0: usize,
    s1: usize,
    s2: usize,
    s3: usize,
) -> bool {
    &&& 0 <= lo <= hi <= segs.len()
    &&& hi - lo <= 2
    &&& ((b0 != b1 || b1 != b2 || b2 != b3) ==> hi > lo)
    &&& forall|t: int|
        lo <= t < hi ==> spec_seg_shape(#[trigger] segs[t], b0, b1, b2, b3, s0, s1, s2, s3)
    &&& (b0 != b1 ==> exists|t: int|
        lo <= t < hi && ((#[trigger] segs[t]).0 == s0 || segs[t].1 == s0))
    &&& (b1 != b2 ==> exists|t: int|
        lo <= t < hi && ((#[trigger] segs[t]).0 == s1 || segs[t].1 == s1))
    &&& (b2 != b3 ==> exists|t: int|
        lo <= t < hi && ((#[trigger] segs[t]).0 == s2 || segs[t].1 == s2))
    &&& (b3 != b0 ==> exists|t: int|
        lo <= t < hi && ((#[trigger] segs[t]).0 == s3 || segs[t].1 == s3))
    &&& forall|t: int, u: int|
        lo <= t < u < hi ==> (#[trigger] segs[t]).0 != (#[trigger] segs[u]).0 && segs[t].0
            != segs[u].1 && segs[t].1 != segs[u].0 && segs[t].1 != segs[u].1
}

/// Whether the cell at `(i, j, k)` has corners on both sides of the iso
/// value.
pub open spec fn spec_cell_mixed(
    below: Seq<bool>,
    i: int,
    j: int,
    k: int,
    ny: int,
    nz: int,
) -> bool {
    exists|m: int, n: int|
        0 <= m < 8 && 0 <= n < 8 && below[#[trigger] spec_corner_gid(m, i, j, k, ny, nz)]
            != below[#[trigger] spec_corner_gid(n, i, j, k, ny, nz)]
}

/// The grid-vertex labels of the two endpoints of cube edge `e` of the
/// cell at `(i, j, k)`, following the classical edge numbering: edges `0`
/// to `3` ring the bottom face, `4` to `7` the top face, and `8` to `11`
/// rise vertically.
fn edge_gids(e: usize, i: usize, j: usize, k: usize, nx: usize, ny: usize, nz: usize) -> (r: (
    usize,
    usize,
))
    requires
        i < nx,
        j < ny,
        k < nz,
        (nx + 1) * (ny + 1) * (nz + 1) <= usize::MAX,
        (nx + 1) * (ny + 1) * (nz + 1) <= i64::MAX,
    ensures
        r.0 < (nx + 1) * (ny + 1) * (nz + 1),
        r.1 < (nx + 1) * (ny + 1) * (nz + 1),
        e < 12 ==> r.0 as int == spec_corner_gid(
            spec_edge_corners(e as int).0,
            i as int,
            j as int,
            k as int,
            ny as int,
            nz as int,
        ) && r.1 as int == spec_corner_gid(
            spec_edge_corners(e as int).1,
            i as int,
            j as int,
            k as int,
            ny as int,
            nz as int,
        ),
{
    let (ca, cb): ((usize, usize, usize), (usize, usize, usize)) = if e == 0 {
        ((i, j, k), (i + 1, j, k))
    } else if e == 1 {
        ((i + 1, j, k), (i + 1, j + 1, k))
    } else if e == 2 {
        ((i + 1, j + 1, k), (i, j + 1, k))
    } else if e == 3 {
        ((i, j + 1, k), (i, j, k))
    } else if e == 4 {
        ((i, j, k + 1), (i + 1, j, k + 1))
    } else if e == 5 {
        ((i + 1, j, k + 1), (i + 1, j + 1, k + 1))
    } else if e == 6 {
        ((i + 1, j + 1, k + 1), (i, j + 1, k + 1))
    } else if e == 7 {
        ((i, j + 1, k + 1), (i, j, k + 1))
    } else if e == 8 {
        ((i, j, k), (i, j, k + 1))
    } else if e == 9 {
        ((i + 1, j, k), (i + 1, j, k + 1))
    } else if e == 10 {
        ((i + 1, j + 1, k), (i + 1, j + 1, k + 1))
    } else {
        ((i, j + 1, k), (i, j + 1, k + 1))
    };
    let ga = grid_id(ca.0, ca.1, ca.2, nx, ny, nz);
    let gb = grid_id(cb.0, cb.1, cb.2, nx, ny, nz);
    (ga, gb)
}

/// The flat label of the grid vertex at `(ix, iy, iz)`, as a position into
/// the sample array.
fn grid_id(ix: usize, iy: usize, iz: usize, nx: usize, ny: usize, nz: usize) -> (g: usize)
    requires
        ix <= nx,
        iy <= ny,
        iz <= nz,
        (nx + 1) * (ny + 1) * (nz + 1) <= usize::MAX,
        (nx + 1) * (ny + 1) * (nz + 1) <= i64::MAX,
    ensures
        g < (nx + 1) * (ny + 1) * (nz + 1),
        g as int == spec_vertex_index(ix as int, iy as int, iz as int, ny as int, nz as int),
{
    proof {
        lemma_vertex_index_bound(ix as int, iy as int, iz as int, nx as int, ny as int, nz as int);
    }
    ix * (ny + 1) * (nz + 1) + iy * (nz + 1) + iz
}

/// Appends the intersection segments of one cube face.
///
/// `b0` to `b3` classify the face's corners in cyclic order and `s0` to
/// `s3` name the cube edges between them (`s0` between corner `0` and
/// corner `1`, and so on).  A lone corner is cut off by one segment between
/// its two adjacent edges; an adjacent pair by one segment across; a
/// diagonal pair by two segments, one around each corner of the pair.
fn face_segments(
    segments: &mut Vec<(usize, usize)>,
    b0: bool,
    b1: bool,
    b2: bool,
    b3: bool,
    s0: usize,
    s1: usize,
    s2: usize,
    s3: usize,
)
    requires
        s0 != s1 && s0 != s2 && s0 != s3 && s1 != s2 && s1 != s3 && s2 != s3,
    ensures
        old(segments)@.len() <= final(segments)@.len() <= old(segments)@.len() + 2,
        forall|t: int| 0 <= t < old(segments)@.len() ==> final(segments)@[t] == old(segments)@[t],
        // a face with corners on both sides contributes at least one segment
        (b0 != b1 || b1 != b2 || b2 != b3) ==> final(segments)@.len() > old(segments)@.len(),
        spec_face_range_ok(
            final(segments)@,
            old(segments)@.len() as int,
            final(segments)@.len() as int,
            b0,
            b1,
            b2,
            b3,
            s0,
            s1,
            s2,
            s3,
        ),
{
    match (b0, b1, b2, b3) {
        (false, false, false, false) => (),
        (true, true, true, true) => (),
        (true, false, false, false) => segments.push((s3, s0)),
        (false, true, false, false) => segments.push((s0, s1)),
        (false, false, true, false) => segments.push((s1, s2)),
        (false, false, false, true) => segments.push((s2, s3)),
        (false, true, true, true) => segments.push((s3, s0)),
        (true, false, true, true) => segments.push((s0, s1)),
        (true, true, false, true) => segments.push((s1, s2)),
        (true, true, true, false) => segments.push((s2, s3)),
        (true, true, false, false) => segments.push((s3, s1)),
        (false, true, true, false) => segments.push((s0, s2)),
        (false, false, true, true) => segments.push((s1, s3)),
        (true, false, false, true) => segments.push((s2, s0)),
        (true, false, true, false) => {
            segments.push((s3, s0));
            segments.push((s1, s2));
        },
        (false, true, false, true) => {
            segments.push((s0, s1));
            segments.push((s2, s3));
        },
    }
    proof {
        match (b0, b1, b2, b3) {
            (true, false, false, false) => {
                assert(segments@[segments@.len() - 1] == (s3, s0));
            },
            (false, true, false, false) => {
                assert(segments@[segments@.len() - 1] == (s0, s1));
            },
            (false, false, true, false) => {
                assert(segments@[segments@.len() - 1] == (s1, s2));
            },
            (false, false, false, true) => {
                assert(segments@[segments@.len() - 1] == (s2, s3));
            },
            (false, true, true, true) => {
                assert(segments@[segments@.len() - 1] == (s3, s0));
            },
            (true, false, true, true) => {
                assert(segments@[segments@.len() - 1] == (s0, s1));
            },
            (true, true, false, true) => {
                assert(segments@[segments@.len() - 1] == (s1, s2));
            },
            (true, true, true, false) => {
                assert(segments@[segments@.len() - 1] == (s2, s3));
            },
            (true, true, false, false) => {
                assert(segments@[segments@.len() - 1] == (s3, s1));
            },
            (false, true, true, false) => {
                assert(segments@[segments@.len() - 1] == (s0, s2));
            },
            (false, false, true, true) => {
                assert(segments@[segments@.len() - 1] == (s1, s3));
            },
            (true, false, false, true) => {
                assert(segments@[segments@.len() - 1] == (s2, s0));
            },
            (true, false, true, false) => {
                assert(segments@[segments@.len() - 2] == (s3, s0));
                assert(segments@[segments@.len() - 1] == (s1, s2));
            },
            (false, true, false, true) => {
                assert(segments@[segments@.len() - 2] == (s0, s1));
                assert(segments@[segments@.len() - 1] == (s2, s3));
            },
            (false, false, false, false) => {},
            (true, true, true, true) => {},
        }
    }
}

/// Appends one face's segments to the combined list.
fn append_segments(dst: &mut Vec<(usize, usize)>, src: &Vec<(usize, usize)>)
    ensures
        final(dst)@ == old(dst)@ + src@,
{
    let mut i: usize = 0;
    while i < src.len()
        invariant
            0 <= i <= src@.len(),
            dst@ == old(dst)@ + src@.subrange(0, i as int),
        decreases src@.len() - i,
    {
        dst.push(src[i]);
        proof {
            assert(dst@ =~= old(dst)@ + src@.subrange(0, i + 1 as int));
        }
        i += 1;
    }
    proof {
        assert(src@.subrange(0, src@.len() as int) =~= src@);
    }
}

/// One face's range characterization holds of the combined list wherever
/// the combined list carries the face's segments unchanged.
proof fn lemma_mc_bridge_one(
    segs: Seq<(usize, usize)>,
    part: Seq<(usize, usize)>,
    lo: int,
    b0: bool,
    b1: bool,
    b2: bool,
    b3: bool,
    s0: usize,
    s1: usize,
    s2: usize,
    s3: usize,
)
    requires
        spec_face_range_ok(part, 0, part.len() as int, b0, b1, b2, b3, s0, s1, s2, s3),
        0 <= lo,
        lo + part.len() <= segs.len(),
        forall|t: int| lo <= t < lo + part.len() ==> #[trigger] segs[t] == part[t - lo],
    ensures
        (((b0) != (b1) || (b1) != (b2) || (b2) != (b3)) ==> (lo + part.len()) > (lo)),
        forall|t: int|
            (lo) <= t < (lo + part.len()) ==> spec_seg_shape(
                #[trigger] segs[t], b0, b1, b2, b3, s0, s1, s2, s3),
        ((b0) != (b1) ==> exists|t: int|
            (lo) <= t < (lo + part.len()) && ((#[trigger] segs[t]).0 == s0 || segs[t].1 == s0)),
        ((b1) != (b2) ==> exists|t: int|
            (lo) <= t < (lo + part.len()) && ((#[trigger] segs[t]).0 == s1 || segs[t].1 == s1)),
        ((b2) != (b3) ==> exists|t: int|
            (lo) <= t < (lo + part.len()) && ((#[trigger] segs[t]).0 == s2 || segs[t].1 == s2)),
        ((b3) != (b0) ==> exists|t: int|
            (lo) <= t < (lo + part.len()) && ((#[trigger] segs[t]).0 == s3 || segs[t].1 == s3)),
        forall|t: int, u: int|
            (lo) <= t < u < (lo + part.len()) ==> (#[trigger] segs[t]).0 != (#[trigger] segs[u]).0
                && segs[t].0 != segs[u].1 && segs[t].1 != segs[u].0 && segs[t].1
                != segs[u].1,
{
    if b0 != b1 {
        let u = choose|u: int|
            0 <= u < part.len() && ((#[trigger] part[u]).0 == s0 || part[u].1 == s0);
        assert(segs[lo + u] == part[u]);
        assert(exists|t: int|
            lo <= t < lo + part.len() && ((#[trigger] segs[t]).0 == s0 || segs[t].1 == s0));
    }
    if b1 != b2 {
        let u = choose|u: int|
            0 <= u < part.len() && ((#[trigger] part[u]).0 == s1 || part[u].1 == s1);
        assert(segs[lo + u] == part[u]);
        assert(exists|t: int|
            lo <= t < lo + part.len() && ((#[trigger] segs[t]).0 == s1 || segs[t].1 == s1));
    }
    if b2 != b3 {
        let u = choose|u: int|
            0 <= u < part.len() && ((#[trigger] part[u]).0 == s2 || part[u].1 == s2);
        assert(segs[lo + u] == part[u]);
        assert(exists|t: int|
            lo <= t < lo + part.len() && ((#[trigger] segs[t]).0 == s2 || segs[t].1 == s2));
    }
    if b3 != b0 {
        let u = choose|u: int|
            0 <= u < part.len() && ((#[trigger] part[u]).0 == s3 || part[u].1 == s3);
        assert(segs[lo + u] == part[u]);
        assert(exists|t: int|
            lo <= t < lo + part.len() && ((#[trigger] segs[t]).0 == s3 || segs[t].1 == s3));
    }
}

/// The combined segment list of a crossed cell always admits a chain of
/// length three: every entry joins two distinct active cube edges, the
/// starting segment's second edge is carried by another segment, and that
/// segment cannot lead straight back to the starting edge.
#[verifier::rlimit(100)]
proof fn lemma_mc_chain_bounds(
    segs: Seq<(usize, usize)>,
    n1: int,
    n2: int,
    n3: int,
    n4: int,
    n5: int,
    c0: bool,
    c1: bool,
    c2: bool,
    c3: bool,
    c4: bool,
    c5: bool,
    c6: bool,
    c7: bool,
)
    requires
        0 <= n1 <= n2 <= n3 <= n4 <= n5 <= segs.len(),
        (((c0) != (c1) || (c1) != (c2) || (c2) != (c3)) ==> (n1) > (0)),
        forall|t: int|
            (0) <= t < (n1) ==> spec_seg_shape(
                #[trigger] segs[t], c0, c1, c2, c3, 0usize, 1usize, 2usize, 3usize),
        ((c0) != (c1) ==> exists|t: int|
            (0) <= t < (n1) && ((#[trigger] segs[t]).0 == 0 || segs[t].1 == 0)),
        ((c1) != (c2) ==> exists|t: int|
            (0) <= t < (n1) && ((#[trigger] segs[t]).0 == 1 || segs[t].1 == 1)),
        ((c2) != (c3) ==> exists|t: int|
            (0) <= t < (n1) && ((#[trigger] segs[t]).0 == 2 || segs[t].1 == 2)),
        ((c3) != (c0) ==> exists|t: int|
            (0) <= t < (n1) && ((#[trigger] segs[t]).0 == 3 || segs[t].1 == 3)),
        forall|t: int, u: int|
            (0) <= t < u < (n1) ==> (#[trigger] segs[t]).0 != (#[trigger] segs[u]).0
                && segs[t].0 != segs[u].1 && segs[t].1 != segs[u].0 && segs[t].1
                != segs[u].1,
        (((c4) != (c5) || (c5) != (c6) || (c6) != (c7)) ==> (n2) > (n1)),
        forall|t: int|
            (n1) <= t < (n2) ==> spec_seg_shape(
                #[trigger] segs[t], c4, c5, c6, c7, 4usize, 5usize, 6usize, 7usize),
        ((c4) != (c5) ==> exists|t: int|
            (n1) <= t < (n2) && ((#[trigger] segs[t]).0 == 4 || segs[t].1 == 4)),
        ((c5) != (c6) ==> exists|t: int|
            (n1) <= t < (n2) && ((#[trigger] segs[t]).0 == 5 || segs[t].1 == 5)),
        ((c6) != (c7) ==> exists|t: int|
            (n1) <= t < (n2) && ((#[trigger] segs[t]).0 == 6 || segs[t].1 == 6)),
        ((c7) != (c4) ==> exists|t: int|
            (n1) <= t < (n2) && ((#[trigger] segs[t]).0 == 7 || segs[t].1 == 7)),
        forall|t: int, u: int|
            (n1) <= t < u < (n2) ==> (#[trigger] segs[t]).0 != (#[trigger] segs[u]).0
                && segs[t].0 != segs[u].1 && segs[t].1 != segs[u].0 && segs[t].1
                != segs[u].1,
        (((c0) != (c1) || (c1) != (c5) || (c5) != (c4)) ==> (n3) > (n2)),
        forall|t: int|
            (n2) <= t < (n3) ==> spec_seg_shape(
                #[trigger] segs[t], c0, c1, c5, c4, 0usize, 9usize, 4usize, 8usize),
        ((c0) != (c1) ==> exists|t: int|
            (n2) <= t < (n3) && ((#[trigger] segs[t]).0 == 0 || segs[t].1 == 0)),
        ((c1) != (c5) ==> exists|t: int|
            (n2) <= t < (n3) && ((#[trigger] segs[t]).0 == 9 || segs[t].1 == 9)),
        ((c5) != (c4) ==> exists|t: int|
            (n2) <= t < (n3) && ((#[trigger] segs[t]).0 == 4 || segs[t].1 == 4)),
        ((c4) != (c0) ==> exists|t: int|
            (n2) <= t < (n3) && ((#[trigger] segs[t]).0 == 8 || segs[t].1 == 8)),
        forall|t: int, u: int|
            (n2) <= t < u < (n3) ==> (#[trigger] segs[t]).0 != (#[trigger] segs[u]).0
                && segs[t].0 != segs[u].1 && segs[t].1 != segs[u].0 && segs[t].1
                != segs[u].1,
        (((c1) != (c2) || (c2) != (c6) || (c6) != (c5)) ==> (n4) > (n3)),
        forall|t: int|
            (n3) <= t < (n4) ==> spec_seg_shape(
                #[trigger] segs[t], c1, c2, c6, c5, 1usize, 10usize, 5usize, 9usize),
        ((c1) != (c2) ==> exists|t: int|
            (n3) <= t < (n4) && ((#[trigger] segs[t]).0 == 1 || segs[t].1 == 1)),
        ((c2) != (c6) ==> exists|t: int|
            (n3) <= t < (n4) && ((#[trigger] segs[t]).0 == 10 || segs[t].1 == 10)),
        ((c6) != (c5) ==> exists|t: int|
            (n3) <= t < (n4) && ((#[trigger] segs[t]).0 == 5 || segs[t].1 == 5)),
        ((c5) != (c1) ==> exists|t: int|
            (n3) <= t < (n4) && ((#[trigger] segs[t]).0 == 9 || segs[t].1 == 9)),
        forall|t: int, u: int|
            (n3) <= t < u < (n4) ==> (#[trigger] segs[t]).0 != (#[trigger] segs[u]).0
                && segs[t].0 != segs[u].1 && segs[t].1 != segs[u].0 && segs[t].1
                != segs[u].1,
        (((c2) != (c3) || (c3) != (c7) || (c7) != (c6)) ==> (n5) > (n4)),
        forall|t: int|
            (n4) <= t < (n5) ==> spec_seg_shape(
                #[trigger] segs[t], c2, c3, c7, c6, 2usize, 11usize, 6usize, 10usize),
        ((c2) != (c3) ==> exists|t: int|
            (n4) <= t < (n5) && ((#[trigger] segs[t]).0 == 2 || segs[t].1 == 2)),
        ((c3) != (c7) ==> exists|t: int|
            (n4) <= t < (n5) && ((#[trigger] segs[t]).0 == 11 || segs[t].1 == 11)),
        ((c7) != (c6) ==> exists|t: int|
            (n4) <= t < (n5) && ((#[trigger] segs[t]).0 == 6 || segs[t].1 == 6)),
        ((c6) != (c2) ==> exists|t: int|
            (n4) <= t < (n5) && ((#[trigger] segs[t]).0 == 10 || segs[t].1 == 10)),
        forall|t: int, u: int|
            (n4) <= t < u < (n5) ==> (#[trigger] segs[t]).0 != (#[trigger] segs[u]).0
                && segs[t].0 != segs[u].1 && segs[t].1 != segs[u].0 && segs[t].1
                != segs[u].1,
        (((c3) != (c0) || (c0) != (c4) || (c4) != (c7)) ==> (segs.len() as int) > (n5)),
        forall|t: int|
            (n5) <= t < (segs.len() as int) ==> spec_seg_shape(
                #[trigger] segs[t], c3, c0, c4, c7, 3usize, 8usize, 7usize, 11usize),
        ((c3) != (c0) ==> exists|t: int|
            (n5) <= t < (segs.len() as int) && ((#[trigger] segs[t]).0 == 3 || segs[t].1 == 3)),
        ((c0) != (c4) ==> exists|t: int|
            (n5) <= t < (segs.len() as int) && ((#[trigger] segs[t]).0 == 8 || segs[t].1 == 8)),
        ((c4) != (c7) ==> exists|t: int|
            (n5) <= t < (segs.len() as int) && ((#[trigger] segs[t]).0 == 7 || segs[t].1 == 7)),
        ((c7) != (c3) ==> exists|t: int|
            (n5) <= t < (segs.len() as int) && ((#[trigger] segs[t]).0 == 11 || segs[t].1 == 11)),
        forall|t: int, u: int|
            (n5) <= t < u < (segs.len() as int) ==> (#[trigger] segs[t]).0 != (#[trigger] segs[u]).0
                && segs[t].0 != segs[u].1 && segs[t].1 != segs[u].0 && segs[t].1
                != segs[u].1,
        segs.len() >= 1,
    ensures
        forall|t: int|
            0 <= t < segs.len() ==> (#[trigger] segs[t]).0 < 12 && segs[t].1 < 12 && segs[t].0
                != segs[t].1 && spec_edge_active_bools(
                segs[t].0 as int,
                c0,
                c1,
                c2,
                c3,
                c4,
                c5,
                c6,
                c7,
            ) && spec_edge_active_bools(segs[t].1 as int, c0, c1, c2, c3, c4, c5, c6, c7),
{
    assert forall|t: int|
        0 <= t < segs.len() implies (#[trigger] segs[t]).0 < 12 && segs[t].1 < 12 && segs[t].0
        != segs[t].1 && spec_edge_active_bools(segs[t].0 as int, c0, c1, c2, c3, c4, c5, c6, c7)
        && spec_edge_active_bools(segs[t].1 as int, c0, c1, c2, c3, c4, c5, c6, c7) by {
        if t < n1 {
        } else if t < n2 {
        } else if t < n3 {
        } else if t < n4 {
        } else if t < n5 {
        } else {
        }
    }
}

/// The combined segment list of a crossed cell admits a chain of length
/// three: the starting segment's second edge is carried by another
/// segment, and no such segment leads straight back to the starting edge.
#[verifier::rlimit(100)]
proof fn lemma_mc_chain_core(
    segs: Seq<(usize, usize)>,
    n1: int,
    n2: int,
    n3: int,
    n4: int,
    n5: int,
    c0: bool,
    c1: bool,
    c2: bool,
    c3: bool,
    c4: bool,
    c5: bool,
    c6: bool,
    c7: bool,
)
    requires
        0 <= n1 <= n2 <= n3 <= n4 <= n5 <= segs.len(),
        (((c0) != (c1) || (c1) != (c2) || (c2) != (c3)) ==> (n1) > (0)),
        forall|t: int|
            (0) <= t < (n1) ==> spec_seg_shape(
                #[trigger] segs[t], c0, c1, c2, c3, 0usize, 1usize, 2usize, 3usize),
        ((c0) != (c1) ==> exists|t: int|
            (0) <= t < (n1) && ((#[trigger] segs[t]).0 == 0 || segs[t].1 == 0)),
        ((c1) != (c2) ==> exists|t: int|
            (0) <= t < (n1) && ((#[trigger] segs[t]).0 == 1 || segs[t].1 == 1)),
        ((c2) != (c3) ==> exists|t: int|
            (0) <= t < (n1) && ((#[trigger] segs[t]).0 == 2 || segs[t].1 == 2)),
        ((c3) != (c0) ==> exists|t: int|
            (0) <= t < (n1) && ((#[trigger] segs[t]).0 == 3 || segs[t].1 == 3)),
        forall|t: int, u: int|
            (0) <= t < u < (n1) ==> (#[trigger] segs[t]).0 != (#[trigger] segs[u]).0
                && segs[t].0 != segs[u].1 && segs[t].1 != segs[u].0 && segs[t].1
                != segs[u].1,
        (((c4) != (c5) || (c5) != (c6) || (c6) != (c7)) ==> (n2) > (n1)),
        forall|t: int|
            (n1) <= t < (n2) ==> spec_seg_shape(
                #[trigger] segs[t], c4, c5, c6, c7, 4usize, 5usize, 6usize, 7usize),
        ((c4) != (c5) ==> exists|t: int|
            (n1) <= t < (n2) && ((#[trigger] segs[t]).0 == 4 || segs[t].1 == 4)),
        ((c5) != (c6) ==> exists|t: int|
            (n1) <= t < (n2) && ((#[trigger] segs[t]).0 == 5 || segs[t].1 == 5)),
        ((c6) != (c7) ==> exists|t: int|
            (n1) <= t < (n2) && ((#[trigger] segs[t]).0 == 6 || segs[t].1 == 6)),
        ((c7) != (c4) ==> exists|t: int|
            (n1) <= t < (n2) && ((#[trigger] segs[t]).0 == 7 || segs[t].1 == 7)),
        forall|t: int, u: int|
            (n1) <= t < u < (n2) ==> (#[trigger] segs[t]).0 != (#[trigger] segs[u]).0
                && segs[t].0 != segs[u].1 && segs[t].1 != segs[u].0 && segs[t].1
                != segs[u].1,
        (((c0) != (c1) || (c1) != (c5) || (c5) != (c4)) ==> (n3) > (n2)),
        forall|t: int|
            (n2) <= t < (n3) ==> spec_seg_shape(
                #[trigger] segs[t], c0, c1, c5, c4, 0usize, 9usize, 4usize, 8usize),
        ((c0) != (c1) ==> exists|t: int|
            (n2) <= t < (n3) && ((#[trigger] segs[t]).0 == 0 || segs[t].1 == 0)),
        ((c1) != (c5) ==> exists|t: int|
            (n2) <= t < (n3) && ((#[trigger] segs[t]).0 == 9 || segs[t].1 == 9)),
        ((c5) != (c4) ==> exists|t: int|
            (n2) <= t < (n3) && ((#[trigger] segs[t]).0 == 4 || segs[t].1 == 4)),
        ((c4) != (c0) ==> exists|t: int|
            (n2) <= t < (n3) && ((#[trigger] segs[t]).0 == 8 || segs[t].1 == 8)),
        forall|t: int, u: int|
            (n2) <= t < u < (n3) ==> (#[trigger] segs[t]).0 != (#[trigger] segs[u]).0
                && segs[t].0 != segs[u].1 && segs[t].1 != segs[u].0 && segs[t].1
                != segs[u].1,
        (((c1) != (c2) || (c2) != (c6) || (c6) != (c5)) ==> (n4) > (n3)),
        forall|t: int|
            (n3) <= t < (n4) ==> spec_seg_shape(
                #[trigger] segs[t], c1, c2, c6, c5, 1usize, 10usize, 5usize, 9usize),
        ((c1) != (c2) ==> exists|t: int|
            (n3) <= t < (n4) && ((#[trigger] segs[t]).0 == 1 || segs[t].1 == 1)),
        ((c2) != (c6) ==> exists|t: int|
            (n3) <= t < (n4) && ((#[trigger] segs[t]).0 == 10 || segs[t].1 == 10)),
        ((c6) != (c5) ==> exists|t: int|
            (n3) <= t < (n4) && ((#[trigger] segs[t]).0 == 5 || segs[t].1 == 5)),
        ((c5) != (c1) ==> exists|t: int|
            (n3) <= t < (n4) && ((#[trigger] segs[t]).0 == 9 || segs[t].1 == 9)),
        forall|t: int, u: int|
            (n3) <= t < u < (n4) ==> (#[trigger] segs[t]).0 != (#[trigger] segs[u]).0
                && segs[t].0 != segs[u].1 && segs[t].1 != segs[u].0 && segs[t].1
                != segs[u].1,
        (((c2) != (c3) || (c3) != (c7) || (c7) != (c6)) ==> (n5) > (n4)),
        forall|t: int|
            (n4) <= t < (n5) ==> spec_seg_shape(
                #[trigger] segs[t], c2, c3, c7, c6, 2usize, 11usize, 6usize, 10usize),
        ((c2) != (c3) ==> exists|t: int|
            (n4) <= t < (n5) && ((#[trigger] segs[t]).0 == 2 || segs[t].1 == 2)),
        ((c3) != (c7) ==> exists|t: int|
            (n4) <= t < (n5) && ((#[trigger] segs[t]).0 == 11 || segs[t].1 == 11)),
        ((c7) != (c6) ==> exists|t: int|
            (n4) <= t < (n5) && ((#[trigger] segs[t]).0 == 6 || segs[t].1 == 6)),
        ((c6) != (c2) ==> exists|t: int|
            (n4) <= t < (n5) && ((#[trigger] segs[t]).0 == 10 || segs[t].1 == 10)),
        forall|t: int, u: int|
            (n4) <= t < u < (n5) ==> (#[trigger] segs[t]).0 != (#[trigger] segs[u]).0
                && segs[t].0 != segs[u].1 && segs[t].1 != segs[u].0 && segs[t].1
                != segs[u].1,
        (((c3) != (c0) || (c0) != (c4) || (c4) != (c7)) ==> (segs.len() as int) > (n5)),
        forall|t: int|
            (n5) <= t < (segs.len() as int) ==> spec_seg_shape(
                #[trigger] segs[t], c3, c0, c4, c7, 3usize, 8usize, 7usize, 11usize),
        ((c3) != (c0) ==> exists|t: int|
            (n5) <= t < (segs.len() as int) && ((#[trigger] segs[t]).0 == 3 || segs[t].1 == 3)),
        ((c0) != (c4) ==> exists|t: int|
            (n5) <= t < (segs.len() as int) && ((#[trigger] segs[t]).0 == 8 || segs[t].1 == 8)),
        ((c4) != (c7) ==> exists|t: int|
            (n5) <= t < (segs.len() as int) && ((#[trigger] segs[t]).0 == 7 || segs[t].1 == 7)),
        ((c7) != (c3) ==> exists|t: int|
            (n5) <= t < (segs.len() as int) && ((#[trigger] segs[t]).0 == 11 || segs[t].1 == 11)),
        forall|t: int, u: int|
            (n5) <= t < u < (segs.len() as int) ==> (#[trigger] segs[t]).0 != (#[trigger] segs[u]).0
                && segs[t].0 != segs[u].1 && segs[t].1 != segs[u].0 && segs[t].1
                != segs[u].1,
        segs.len() >= 1,
    ensures
        exists|t: int|
            1 <= t < segs.len() && ((#[trigger] segs[t]).0 == segs[0].1 || segs[t].1
                == segs[0].1),
        forall|t: int|
            1 <= t < segs.len() && ((#[trigger] segs[t]).0 == segs[0].1 || segs[t].1
                == segs[0].1) ==> segs[t].0 != segs[0].0 && segs[t].1 != segs[0].0,
{
    let b = segs[0].1;
    assert(spec_edge_active_bools(b as int, c0, c1, c2, c3, c4, c5, c6, c7));
    // the chain's second edge lies on two cube faces; both cover it, and
    // the two covering segments sit in different face ranges, so one of
    // them is not segment zero
    assert(exists|t: int|
        1 <= t < segs.len() && ((#[trigger] segs[t]).0 == b || segs[t].1 == b)) by {
        if b == 0 {
            let ta = choose|t: int| 0 <= t < n1 && ((#[trigger] segs[t]).0 == 0 || segs[t].1 == 0);
            let tb = choose|t: int| n2 <= t < n3 && ((#[trigger] segs[t]).0 == 0 || segs[t].1 == 0);
            assert(ta != tb);
        } else if b == 1 {
            let ta = choose|t: int| 0 <= t < n1 && ((#[trigger] segs[t]).0 == 1 || segs[t].1 == 1);
            let tb = choose|t: int| n3 <= t < n4 && ((#[trigger] segs[t]).0 == 1 || segs[t].1 == 1);
            assert(ta != tb);
        } else if b == 2 {
            let ta = choose|t: int| 0 <= t < n1 && ((#[trigger] segs[t]).0 == 2 || segs[t].1 == 2);
            let tb = choose|t: int| n4 <= t < n5 && ((#[trigger] segs[t]).0 == 2 || segs[t].1 == 2);
            assert(ta != tb);
        } else if b == 3 {
            let ta = choose|t: int| 0 <= t < n1 && ((#[trigger] segs[t]).0 == 3 || segs[t].1 == 3);
            let tb = choose|t: int|
                n5 <= t < segs.len() && ((#[trigger] segs[t]).0 == 3 || segs[t].1 == 3);
            assert(ta != tb);
        } else if b == 4 {
            let ta = choose|t: int| n1 <= t < n2 && ((#[trigger] segs[t]).0 == 4 || segs[t].1 == 4);
            let tb = choose|t: int| n2 <= t < n3 && ((#[trigger] segs[t]).0 == 4 || segs[t].1 == 4);
            assert(ta != tb);
        } else if b == 5 {
            let ta = choose|t: int| n1 <= t < n2 && ((#[trigger] segs[t]).0 == 5 || segs[t].1 == 5);
            let tb = choose|t: int| n3 <= t < n4 && ((#[trigger] segs[t]).0 == 5 || segs[t].1 == 5);
            assert(ta != tb);
        } else if b == 6 {
            let ta = choose|t: int| n1 <= t < n2 && ((#[trigger] segs[t]).0 == 6 || segs[t].1 == 6);
            let tb = choose|t: int| n4 <= t < n5 && ((#[trigger] segs[t]).0 == 6 || segs[t].1 == 6);
            assert(ta != tb);
        } else if b == 7 {
            let ta = choose|t: int| n1 <= t < n2 && ((#[trigger] segs[t]).0 == 7 || segs[t].1 == 7);
            let tb = choose|t: int|
                n5 <= t < segs.len() && ((#[trigger] segs[t]).0 == 7 || segs[t].1 == 7);
            assert(ta != tb);
        } else if b == 8 {
            let ta = choose|t: int| n2 <= t < n3 && ((#[trigger] segs[t]).0 == 8 || segs[t].1 == 8);
            let tb = choose|t: int|
                n5 <= t < segs.len() && ((#[trigger] segs[t]).0 == 8 || segs[t].1 == 8);
            assert(ta != tb);
        } else if b == 9 {
            let ta = choose|t: int| n2 <= t < n3 && ((#[trigger] segs[t]).0 == 9 || segs[t].1 == 9);
            let tb = choose|t: int| n3 <= t < n4 && ((#[trigger] segs[t]).0 == 9 || segs[t].1 == 9);
            assert(ta != tb);
        } else if b == 10 {
            let ta = choose|t: int|
                n3 <= t < n4 && ((#[trigger] segs[t]).0 == 10 || segs[t].1 == 10);
            let tb = choose|t: int|
                n4 <= t < n5 && ((#[trigger] segs[t]).0 == 10 || segs[t].1 == 10);
            assert(ta != tb);
        } else {
            assert(b == 11);
            let ta = choose|t: int|
                n4 <= t < n5 && ((#[trigger] segs[t]).0 == 11 || segs[t].1 == 11);
            let tb = choose|t: int|
                n5 <= t < segs.len() && ((#[trigger] segs[t]).0 == 11 || segs[t].1 == 11);
            assert(ta != tb);
        }
    }
    assert forall|t: int|
        1 <= t < segs.len() && ((#[trigger] segs[t]).0 == segs[0].1 || segs[t].1 == segs[0].1)
        implies segs[t].0 != segs[0].0 && segs[t].1 != segs[0].0 by {}
}


/// The combined segment list of a crossed cell, assembled from the six
/// cube faces' contributions, admits a chain of length three.
proof fn lemma_mc_chain(
    segs: Seq<(usize, usize)>,
    p1: Seq<(usize, usize)>,
    p2: Seq<(usize, usize)>,
    p3: Seq<(usize, usize)>,
    p4: Seq<(usize, usize)>,
    p5: Seq<(usize, usize)>,
    p6: Seq<(usize, usize)>,
    c0: bool,
    c1: bool,
    c2: bool,
    c3: bool,
    c4: bool,
    c5: bool,
    c6: bool,
    c7: bool,
)
    requires
        segs == p1 + p2 + p3 + p4 + p5 + p6,
        spec_face_range_ok(p1, 0, p1.len() as int, c0, c1, c2, c3, 0, 1, 2, 3),
        spec_face_range_ok(p2, 0, p2.len() as int, c4, c5, c6, c7, 4, 5, 6, 7),
        spec_face_range_ok(p3, 0, p3.len() as int, c0, c1, c5, c4, 0, 9, 4, 8),
        spec_face_range_ok(p4, 0, p4.len() as int, c1, c2, c6, c5, 1, 10, 5, 9),
        spec_face_range_ok(p5, 0, p5.len() as int, c2, c3, c7, c6, 2, 11, 6, 10),
        spec_face_range_ok(p6, 0, p6.len() as int, c3, c0, c4, c7, 3, 8, 7, 11),
        segs.len() >= 1,
    ensures
        forall|t: int|
            0 <= t < segs.len() ==> (#[trigger] segs[t]).0 < 12 && segs[t].1 < 12 && segs[t].0
                != segs[t].1 && spec_edge_active_bools(
                segs[t].0 as int,
                c0,
                c1,
                c2,
                c3,
                c4,
                c5,
                c6,
                c7,
            ) && spec_edge_active_bools(segs[t].1 as int, c0, c1, c2, c3, c4, c5, c6, c7),
        exists|t: int|
            1 <= t < segs.len() && ((#[trigger] segs[t]).0 == segs[0].1 || segs[t].1
                == segs[0].1),
        forall|t: int|
            1 <= t < segs.len() && ((#[trigger] segs[t]).0 == segs[0].1 || segs[t].1
                == segs[0].1) ==> segs[t].0 != segs[0].0 && segs[t].1 != segs[0].0,
{
    let n1 = p1.len() as int;
    let n2 = n1 + p2.len();
    let n3 = n2 + p3.len();
    let n4 = n3 + p4.len();
    let n5 = n4 + p5.len();
    assert(forall|t: int| 0 <= t < n1 ==> #[trigger] segs[t] == p1[t - 0]);
    assert(forall|t: int| n1 <= t < n2 ==> #[trigger] segs[t] == p2[t - n1]);
    assert(forall|t: int| n2 <= t < n3 ==> #[trigger] segs[t] == p3[t - n2]);
    assert(forall|t: int| n3 <= t < n4 ==> #[trigger] segs[t] == p4[t - n3]);
    assert(forall|t: int| n4 <= t < n5 ==> #[trigger] segs[t] == p5[t - n4]);
    assert(forall|t: int|
        n5 <= t < segs.len() ==> #[trigger] segs[t] == p6[t - n5]);
    lemma_mc_bridge_one(segs, p1, 0, c0, c1, c2, c3, 0, 1, 2, 3);
    lemma_mc_bridge_one(segs, p2, n1, c4, c5, c6, c7, 4, 5, 6, 7);
    lemma_mc_bridge_one(segs, p3, n2, c0, c1, c5, c4, 0, 9, 4, 8);
    lemma_mc_bridge_one(segs, p4, n3, c1, c2, c6, c5, 1, 10, 5, 9);
    lemma_mc_bridge_one(segs, p5, n4, c2, c3, c7, c6, 2, 11, 6, 10);
    lemma_mc_bridge_one(segs, p6, n5, c3, c0, c4, c7, 3, 8, 7, 11);
    lemma_mc_chain_bounds(segs, n1, n2, n3, n4, n5, c0, c1, c2, c3, c4, c5, c6, c7);
    lemma_mc_chain_core(segs, n1, n2, n3, n4, n5, c0, c1, c2, c3, c4, c5, c6, c7);
}

/// Extracts the isosurface triangles of one grid cell and appends them to
/// `faces`.
///
/// The cell's corner classifications are read from `below`; the segments
/// where the surface crosses each cube face are stitched into closed
/// polygons and each polygon is fan-triangulated.  A cell whose corners
/// all classify alike contributes nothing.  Twelve cube edges bound the
/// cell, so no cell can contribute more than twelve triangles; the code
/// also enforces that cap so the label arithmetic stays in range.
#[verifier::rlimit(100)]
fn mc_cell<I: Fn(u64, u64) -> (Coord, Coord, Coord)>(
    i: usize,
    j: usize,
    k: usize,
    nx: usize,
    ny: usize,
    nz: usize,
    below: &Vec<bool>,
    interp: &I,
    faces: &mut Vec<Face>,
)
    requires
        i < nx,
        j < ny,
        k < nz,
        below@.len() == (nx + 1) * (ny + 1) * (nz + 1),
        (nx + 1) * (ny + 1) * (nz + 1) <= usize::MAX,
        (nx + 1) * (ny + 1) * (nz + 1) <= i64::MAX,
        3 * (old(faces)@.len() + 12) + 2 <= i64::MAX,
        old(faces)@.len() + 12 <= usize::MAX,
        forall|ga: u64, gb: u64| #[trigger] call_requires(*interp, (ga, gb)),
        spec_mc_faces_ok(old(faces)@, below@, *interp),
    ensures
        old(faces)@.len() <= final(faces)@.len() <= old(faces)@.len() + 12,
        forall|t: int| 0 <= t < old(faces)@.len() ==> final(faces)@[t] == old(faces)@[t],
        spec_mc_faces_ok(final(faces)@, below@, *interp),
        (forall|g: int| 0 <= g < below@.len() ==> #[trigger] below@[g] == below@[0]) ==> final(faces)@ == old(
            faces,
        )@,
        // a cell whose corners all classify alike contributes nothing
        !spec_cell_mixed(below@, i as int, j as int, k as int, ny as int, nz as int)
            ==> final(faces)@ == old(faces)@,
        // a crossed cell contributes at least one face
        spec_cell_mixed(below@, i as int, j as int, k as int, ny as int, nz as int)
            ==> final(faces)@.len() > old(faces)@.len(),
{
    let g0 = grid_id(i, j, k, nx, ny, nz);
    let g1 = grid_id(i + 1, j, k, nx, ny, nz);
    let g2 = grid_id(i + 1, j + 1, k, nx, ny, nz);
    let g3 = grid_id(i, j + 1, k, nx, ny, nz);
    let g4 = grid_id(i, j, k + 1, nx, ny, nz);
    let g5 = grid_id(i + 1, j, k + 1, nx, ny, nz);
    let g6 = grid_id(i + 1, j + 1, k + 1, nx, ny, nz);
    let g7 = grid_id(i, j + 1, k + 1, nx, ny, nz);
    let in0 = below[g0];
    let in1 = below[g1];
    let in2 = below[g2];
    let in3 = below[g3];
    let in4 = below[g4];
    let in5 = below[g5];
    let in6 = below[g6];
    let in7 = below[g7];
    proof {
        assert(g0 as int == spec_corner_gid(0, i as int, j as int, k as int, ny as int, nz as int));
        assert(g1 as int == spec_corner_gid(1, i as int, j as int, k as int, ny as int, nz as int));
        assert(g2 as int == spec_corner_gid(2, i as int, j as int, k as int, ny as int, nz as int));
        assert(g3 as int == spec_corner_gid(3, i as int, j as int, k as int, ny as int, nz as int));
        assert(g4 as int == spec_corner_gid(4, i as int, j as int, k as int, ny as int, nz as int));
        assert(g5 as int == spec_corner_gid(5, i as int, j as int, k as int, ny as int, nz as int));
        assert(g6 as int == spec_corner_gid(6, i as int, j as int, k as int, ny as int, nz as int));
        assert(g7 as int == spec_corner_gid(7, i as int, j as int, k as int, ny as int, nz as int));
    }

    if in0 == in1 && in0 == in2 && in0 == in3 && in0 == in4 && in0 == in5 && in0 == in6 && in0
        == in7 {
        // fully inside or fully outside: the surface does not cross this cell
        proof {
            assert forall|m: int, n: int| 0 <= m < 8 && 0 <= n < 8 implies below@[#[trigger] spec_corner_gid(
                m,
                i as int,
                j as int,
                k as int,
                ny as int,
                nz as int,
            )] == below@[#[trigger] spec_corner_gid(
                n,
                i as int,
                j as int,
                k as int,
                ny as int,
                nz as int,
            )] by {}
            assert(!spec_cell_mixed(below@, i as int, j as int, k as int, ny as int, nz as int));
        }
        return ;
    }
    proof {
        // some pair of corners straddles the iso value
        assert(spec_cell_mixed(below@, i as int, j as int, k as int, ny as int, nz as int));
    }

    let mut s1v: Vec<(usize, usize)> = Vec::new();
    let mut s2v: Vec<(usize, usize)> = Vec::new();
    let mut s3v: Vec<(usize, usize)> = Vec::new();
    let mut s4v: Vec<(usize, usize)> = Vec::new();
    let mut s5v: Vec<(usize, usize)> = Vec::new();
    let mut s6v: Vec<(usize, usize)> = Vec::new();
    face_segments(&mut s1v, in0, in1, in2, in3, 0, 1, 2, 3);
    face_segments(&mut s2v, in4, in5, in6, in7, 4, 5, 6, 7);
    face_segments(&mut s3v, in0, in1, in5, in4, 0, 9, 4, 8);
    face_segments(&mut s4v, in1, in2, in6, in5, 1, 10, 5, 9);
    face_segments(&mut s5v, in2, in3, in7, in6, 2, 11, 6, 10);
    face_segments(&mut s6v, in3, in0, in4, in7, 3, 8, 7, 11);
    let mut segments: Vec<(usize, usize)> = Vec::new();
    append_segments(&mut segments, &s1v);
    append_segments(&mut segments, &s2v);
    append_segments(&mut segments, &s3v);
    append_segments(&mut segments, &s4v);
    append_segments(&mut segments, &s5v);
    append_segments(&mut segments, &s6v);
    proof {
        assert(segments@ =~= s1v@ + s2v@ + s3v@ + s4v@ + s5v@ + s6v@);
        // some adjacent corner pair differs, so one of the six faces is
        // mixed and contributed a segment
        assert(s1v@.len() + s2v@.len() + s3v@.len() + s4v@.len() + s5v@.len() + s6v@.len() >= 1);
        lemma_mc_chain(segments@, s1v@, s2v@, s3v@, s4v@, s5v@, s6v@, in0, in1, in2, in3, in4,
            in5, in6, in7);
    }
    let ghost gsegs = segments@;

    let nsegs = segments.len();
    proof {
        assert(nsegs <= 12);
        assert(nsegs >= 1);
    }
    let mut visited: Vec<bool> = Vec::new();
    let mut vi: usize = 0;
    while vi < nsegs
        invariant
            visited@.len() == vi,
            vi <= nsegs,
            forall|t: int| 0 <= t < vi ==> !(#[trigger] visited@[t]),
        decreases nsegs - vi,
    {
        visited.push(false);
        vi += 1;
    }

    let ghost pre = faces@;
    let mut emitted: usize = 0;

    let mut start: usize = 0;
    while start < nsegs
        invariant
            start <= nsegs,
            nsegs == segments@.len(),
            nsegs <= 12,
            visited@.len() == nsegs,
            i < nx,
            j < ny,
            k < nz,
            (nx + 1) * (ny + 1) * (nz + 1) <= usize::MAX,
            (nx + 1) * (ny + 1) * (nz + 1) <= i64::MAX,
            emitted <= 12,
            pre.len() <= faces@.len() <= pre.len() + emitted,
            pre.len() + 12 <= usize::MAX,
            3 * (pre.len() + 12) + 2 <= i64::MAX,
            forall|t: int| 0 <= t < pre.len() ==> faces@[t] == pre[t],
            spec_mc_faces_ok(faces@, below@, *interp),
            forall|ga: u64, gb: u64| #[trigger] call_requires(*interp, (ga, gb)),
            below@.len() == (nx + 1) * (ny + 1) * (nz + 1),
            segments@ == gsegs,
            forall|t: int|
                0 <= t < gsegs.len() ==> (#[trigger] gsegs[t]).0 < 12 && gsegs[t].1 < 12
                    && gsegs[t].0 != gsegs[t].1 && spec_edge_active_bools(
                    gsegs[t].0 as int,
                    in0,
                    in1,
                    in2,
                    in3,
                    in4,
                    in5,
                    in6,
                    in7,
                ) && spec_edge_active_bools(gsegs[t].1 as int, in0, in1, in2, in3, in4, in5, in6, in7),
            exists|t: int|
                1 <= t < gsegs.len() && ((#[trigger] gsegs[t]).0 == gsegs[0].1 || gsegs[t].1
                    == gsegs[0].1),
            forall|t: int|
                1 <= t < gsegs.len() && ((#[trigger] gsegs[t]).0 == gsegs[0].1 || gsegs[t].1
                    == gsegs[0].1) ==> gsegs[t].0 != gsegs[0].0 && gsegs[t].1 != gsegs[0].0,
            in0 == below@[spec_corner_gid(0, i as int, j as int, k as int, ny as int, nz as int)],
            in1 == below@[spec_corner_gid(1, i as int, j as int, k as int, ny as int, nz as int)],
            in2 == below@[spec_corner_gid(2, i as int, j as int, k as int, ny as int, nz as int)],
            in3 == below@[spec_corner_gid(3, i as int, j as int, k as int, ny as int, nz as int)],
            in4 == below@[spec_corner_gid(4, i as int, j as int, k as int, ny as int, nz as int)],
            in5 == below@[spec_corner_gid(5, i as int, j as int, k as int, ny as int, nz as int)],
            in6 == below@[spec_corner_gid(6, i as int, j as int, k as int, ny as int, nz as int)],
            in7 == below@[spec_corner_gid(7, i as int, j as int, k as int, ny as int, nz as int)],
            start == 0 ==> emitted == 0 && faces@.len() == pre.len() && (forall|t: int|
                0 <= t < nsegs ==> !(#[trigger] visited@[t])),
            start >= 1 ==> faces@.len() > pre.len(),
        decreases nsegs - start,
    {
        if !visited[start] {
            visited[start] = true;
            let seg = segments[start];
            let mut polygon: Vec<usize> = Vec::new();
            polygon.push(seg.0);
            polygon.push(seg.1);

            // Follow the chain of segments that share cube edges until the
            // cycle closes or no continuation remains.
            let mut chain_done = false;
            let mut steps: usize = 0;
            while steps < nsegs && !chain_done
                invariant
                    nsegs == segments@.len(),
                    nsegs <= 12,
                    visited@.len() == nsegs,
                    polygon@.len() >= 2,
                    polygon@.len() <= 2 + steps,
                    steps <= nsegs,
                    segments@ == gsegs,
                    forall|t: int|
                        0 <= t < gsegs.len() ==> (#[trigger] gsegs[t]).0 < 12 && gsegs[t].1 < 12
                            && gsegs[t].0 != gsegs[t].1 && spec_edge_active_bools(
                            gsegs[t].0 as int,
                            in0,
                            in1,
                            in2,
                            in3,
                            in4,
                            in5,
                            in6,
                            in7,
                        ) && spec_edge_active_bools(gsegs[t].1 as int, in0, in1, in2, in3, in4, in5, in6, in7),
                    exists|t: int|
                        1 <= t < gsegs.len() && ((#[trigger] gsegs[t]).0 == gsegs[0].1 || gsegs[t].1
                            == gsegs[0].1),
                    forall|t: int|
                        1 <= t < gsegs.len() && ((#[trigger] gsegs[t]).0 == gsegs[0].1 || gsegs[t].1
                            == gsegs[0].1) ==> gsegs[t].0 != gsegs[0].0 && gsegs[t].1 != gsegs[0].0,
                    start == 0 ==> visited@[0],
                    start == 0 ==> polygon@[0] == gsegs[0].0 && polygon@[1] == gsegs[0].1,
                    start == 0 && steps == 0 ==> polygon@.len() == 2 && !chain_done && (forall|
                        t: int,
                    |
                        1 <= t < nsegs ==> !(#[trigger] visited@[t])),
                    start == 0 && steps >= 1 ==> polygon@.len() >= 3 && polygon@[2] < 12
                        && spec_edge_active_bools(
                        polygon@[2] as int,
                        in0,
                        in1,
                        in2,
                        in3,
                        in4,
                        in5,
                        in6,
                        in7,
                    ),
                decreases nsegs - steps,
            {
                steps += 1;
                let current = polygon[polygon.len() - 1];
                let first = polygon[0];
                let ghost fstep = start == 0 && steps == 1;
                let mut next: usize = 0;
                let mut found = false;
                let mut si: usize = 0;
                while si < nsegs
                    invariant
                        si <= nsegs,
                        nsegs == segments@.len(),
                        visited@.len() == nsegs,
                        segments@ == gsegs,
                        forall|t: int|
                            0 <= t < gsegs.len() ==> (#[trigger] gsegs[t]).0 < 12 && gsegs[t].1 < 12
                                && gsegs[t].0 != gsegs[t].1 && spec_edge_active_bools(
                                gsegs[t].0 as int,
                                in0,
                                in1,
                                in2,
                                in3,
                                in4,
                                in5,
                                in6,
                                in7,
                            ) && spec_edge_active_bools(gsegs[t].1 as int, in0, in1, in2, in3, in4, in5, in6, in7),
                        exists|t: int|
                            1 <= t < gsegs.len() && ((#[trigger] gsegs[t]).0 == gsegs[0].1 || gsegs[t].1
                                == gsegs[0].1),
                        forall|t: int|
                            1 <= t < gsegs.len() && ((#[trigger] gsegs[t]).0 == gsegs[0].1 || gsegs[t].1
                                == gsegs[0].1) ==> gsegs[t].0 != gsegs[0].0 && gsegs[t].1 != gsegs[0].0,
                        start == 0 ==> visited@[0],
                        fstep ==> start == 0 && steps == 1,
                        fstep ==> current == gsegs[0].1 && first == gsegs[0].0,
                        fstep && !found ==> (forall|t: int|
                            0 <= t < si ==> (#[trigger] visited@[t]) || !(gsegs[t].0 == current
                                || gsegs[t].1 == current)),
                        fstep && !found ==> (forall|t: int|
                            1 <= t < nsegs ==> !(#[trigger] visited@[t])),
                        fstep && found ==> next != first && next < 12 && spec_edge_active_bools(
                            next as int,
                            in0,
                            in1,
                            in2,
                            in3,
                            in4,
                            in5,
                            in6,
                            in7,
                        ),
                    decreases nsegs - si,
                {
                    if !found && !visited[si] {
                        let s = segments[si];
                        if s.0 == current {
                            visited[si] = true;
                            next = s.1;
                            found = true;
                        } else if s.1 == current {
                            visited[si] = true;
                            next = s.0;
                            found = true;
                        }
                    }
                    si += 1;
                }
                proof {
                    if start == 0 && steps == 1 && !found {
                        // the chain lemma names a second segment carrying the
                        // starting segment's second edge; it was unvisited, so
                        // the scan cannot have missed it
                        let tw = choose|t: int|
                            1 <= t < gsegs.len() && ((#[trigger] gsegs[t]).0 == gsegs[0].1
                                || gsegs[t].1 == gsegs[0].1);
                        assert(1 <= tw < nsegs);
                        assert(!visited@[tw]);
                        assert(gsegs[tw].0 == current || gsegs[tw].1 == current);
                        assert(false);
                    }
                }
                if !found {
                    chain_done = true;
                } else if next == first {
                    chain_done = true;
                } else {
                    polygon.push(next);
                }
            }

            // Fan-triangulate the polygon; each triangle's corners must lie
            // on active edges, which is checked before anything is emitted.
            if polygon.len() >= 3 {
                let mut m: usize = 1;
                while m + 1 < polygon.len()
                    invariant
                        1 <= m,
                        m <= polygon@.len(),
                        polygon@.len() <= 14,
                        nsegs == segments@.len(),
                        emitted <= 12,
                        pre.len() <= faces@.len() <= pre.len() + emitted,
                        pre.len() + 12 <= usize::MAX,
                        3 * (pre.len() + 12) + 2 <= i64::MAX,
                        forall|t: int| 0 <= t < pre.len() ==> faces@[t] == pre[t],
                        spec_mc_faces_ok(faces@, below@, *interp),
                        forall|ga: u64, gb: u64| #[trigger] call_requires(*interp, (ga, gb)),
                        below@.len() == (nx + 1) * (ny + 1) * (nz + 1),
                        i < nx && j < ny && k < nz,
                        (nx + 1) * (ny + 1) * (nz + 1) <= usize::MAX,
                        (nx + 1) * (ny + 1) * (nz + 1) <= i64::MAX,
                        gsegs.len() >= 1,
                        forall|t: int|
                            0 <= t < gsegs.len() ==> (#[trigger] gsegs[t]).0 < 12 && gsegs[t].1
                                < 12 && gsegs[t].0 != gsegs[t].1 && spec_edge_active_bools(
                                gsegs[t].0 as int,
                                in0,
                                in1,
                                in2,
                                in3,
                                in4,
                                in5,
                                in6,
                                in7,
                            ) && spec_edge_active_bools(
                                gsegs[t].1 as int,
                                in0,
                                in1,
                                in2,
                                in3,
                                in4,
                                in5,
                                in6,
                                in7,
                            ),
                        in0 == below@[spec_corner_gid(0, i as int, j as int, k as int, ny as int, nz as int)],
                        in1 == below@[spec_corner_gid(1, i as int, j as int, k as int, ny as int, nz as int)],
                        in2 == below@[spec_corner_gid(2, i as int, j as int, k as int, ny as int, nz as int)],
                        in3 == below@[spec_corner_gid(3, i as int, j as int, k as int, ny as int, nz as int)],
                        in4 == below@[spec_corner_gid(4, i as int, j as int, k as int, ny as int, nz as int)],
                        in5 == below@[spec_corner_gid(5, i as int, j as int, k as int, ny as int, nz as int)],
                        in6 == below@[spec_corner_gid(6, i as int, j as int, k as int, ny as int, nz as int)],
                        in7 == below@[spec_corner_gid(7, i as int, j as int, k as int, ny as int, nz as int)],
                        start == 0 ==> polygon@.len() >= 3 && polygon@[0] == gsegs[0].0
                            && polygon@[1] == gsegs[0].1 && polygon@[2] < 12
                            && spec_edge_active_bools(
                            polygon@[2] as int,
                            in0,
                            in1,
                            in2,
                            in3,
                            in4,
                            in5,
                            in6,
                            in7,
                        ),
                        start == 0 && m == 1 ==> emitted == 0 && faces@.len() == pre.len(),
                        start == 0 && m >= 2 ==> faces@.len() > pre.len(),
                        start >= 1 ==> faces@.len() > pre.len(),
                    decreases polygon@.len() - m,
                {
                    let e0 = polygon[0];
                    let e1 = polygon[m];
                    let e2 = polygon[m + 1];
                    let (ga0, gb0) = edge_gids(e0, i, j, k, nx, ny, nz);
                    let (ga1, gb1) = edge_gids(e1, i, j, k, nx, ny, nz);
                    let (ga2, gb2) = edge_gids(e2, i, j, k, nx, ny, nz);
                    proof {
                        if start == 0 && m == 1 {
                            // the first three polygon corners lie on active
                            // edges, so the first triangle is always emitted
                            assert(e0 == gsegs[0].0 && e1 == gsegs[0].1 && e2 == polygon@[2]);
                            assert(below@[ga0 as int] != below@[gb0 as int]);
                            assert(below@[ga1 as int] != below@[gb1 as int]);
                            assert(below@[ga2 as int] != below@[gb2 as int]);
                        }
                    }
                    if emitted < 12 && below[ga0] != below[gb0] && below[ga1] != below[gb1]
                        && below[ga2] != below[gb2] {
                        let base = (faces.len() as i64) * 3;
                        let ra = interp(ga0 as u64, gb0 as u64);
                        let rb = interp(ga1 as u64, gb1 as u64);
                        let rc = interp(ga2 as u64, gb2 as u64);
                        let fa = Point3D { index: base, x: ra.0, y: ra.1, z: ra.2 };
                        let fb = Point3D { index: base + 1, x: rb.0, y: rb.1, z: rb.2 };
                        let fc = Point3D { index: base + 2, x: rc.0, y: rc.1, z: rc.2 };
                        let face = Face { a: fa, b: fb, c: fc };
                        proof {
                            assert(ra == (fa.x, fa.y, fa.z));
                            assert(rb == (fb.x, fb.y, fb.z));
                            assert(rc == (fc.x, fc.y, fc.z));
                            assert(call_ensures(*interp, (ga0 as u64, gb0 as u64), (fa.x, fa.y, fa.z)));
                            assert(call_ensures(*interp, (ga1 as u64, gb1 as u64), (fb.x, fb.y, fb.z)));
                            assert(call_ensures(*interp, (ga2 as u64, gb2 as u64), (fc.x, fc.y, fc.z)));
                            assert(spec_mc_vertex_on_edge(fa, below@, *interp));
                            assert(spec_mc_vertex_on_edge(fb, below@, *interp));
                            assert(spec_mc_vertex_on_edge(fc, below@, *interp));
                            assert(spec_mc_face_ok(face, faces@.len() as int, below@, *interp));
                        }
                        faces.push(face);
                        emitted += 1;
                    }
                    m += 1;
                }
            }
        }
        start += 1;
    }
}

/// Extracts an isosurface triangulation from a sampled scalar field.
///
/// The grid has `nx * ny * nz` cells; `below` classifies each of the
/// `(nx + 1) (ny + 1) (nz + 1)` grid vertices by whether the field sample
/// lies below the iso value, and `interp` answers the surface position on
/// the edge between two grid vertices (the floating-point front end
/// interpolates linearly).  Each cell crossed by the surface contributes
/// the fan triangulations of its traced intersection polygons.  Every
/// vertex of face `i` of the result carries a fresh label among `3 i`,
/// `3 i + 1` and `3 i + 2` and lies on an edge whose endpoint
/// classifications differ; a field with no sign change over the grid
/// yields no faces.
pub fn marching_cubes<I: Fn(u64, u64) -> (Coord, Coord, Coord)>(
    nx: usize,
    ny: usize,
    nz: usize,
    below: &Vec<bool>,
    interp: I,
) -> (faces: Vec<Face>)
    requires
        below@.len() == (nx + 1) * (ny + 1) * (nz + 1),
        (nx + 1) * (ny + 1) * (nz + 1) <= usize::MAX,
        (nx + 1) * (ny + 1) * (nz + 1) <= i64::MAX,
        36 * ((nx * ny) * nz) + 40 <= usize::MAX,
        36 * ((nx * ny) * nz) + 40 <= i64::MAX,
        forall|ga: u64, gb: u64| #[trigger] call_requires(interp, (ga, gb)),
    ensures
        spec_mc_faces_ok(faces@, below@, interp),
        faces@.len() <= 12 * ((nx * ny) * nz),
        (forall|g: int| 0 <= g < below@.len() ==> #[trigger] below@[g] == below@[0]) ==> faces@.len() == 0,
        // without a cell whose corners straddle the iso value there is no
        // surface at all
        (forall|a: int, b: int, c: int|
            0 <= a < nx && 0 <= b < ny && 0 <= c < nz ==> !#[trigger] spec_cell_mixed(
                below@,
                a,
                b,
                c,
                ny as int,
                nz as int,
            )) ==> faces@.len() == 0,
        // a cell with corners on both sides of the iso value guarantees at
        // least one face
        (exists|a: int, b: int, c: int|
            0 <= a < nx && 0 <= b < ny && 0 <= c < nz && #[trigger] spec_cell_mixed(
                below@,
                a,
                b,
                c,
                ny as int,
                nz as int,
            )) ==> faces@.len() > 0,
{
    let ghost uniform = forall|g: int| 0 <= g < below@.len() ==> #[trigger] below@[g] == below@[0];
    let ghost no_mixed = forall|a: int, b: int, c: int|
        0 <= a < nx && 0 <= b < ny && 0 <= c < nz ==> !#[trigger] spec_cell_mixed(
            below@,
            a,
            b,
            c,
            ny as int,
            nz as int,
        );
    let mut faces: Vec<Face> = Vec::new();

    let mut i: usize = 0;
    proof {
        assert(12 * (0 * (ny as int) * (nz as int)) == 0) by (nonlinear_arith);
    }
    while i < nx
        invariant
            i <= nx,
            below@.len() == (nx + 1) * (ny + 1) * (nz + 1),
            (nx + 1) * (ny + 1) * (nz + 1) <= usize::MAX,
            (nx + 1) * (ny + 1) * (nz + 1) <= i64::MAX,
            36 * ((nx * ny) * nz) + 40 <= usize::MAX,
            36 * ((nx * ny) * nz) + 40 <= i64::MAX,
            forall|ga: u64, gb: u64| #[trigger] call_requires(interp, (ga, gb)),
            uniform == (forall|g: int| 0 <= g < below@.len() ==> #[trigger] below@[g] == below@[0]),
            no_mixed == (forall|a: int, b: int, c: int|
                0 <= a < nx && 0 <= b < ny && 0 <= c < nz ==> !#[trigger] spec_cell_mixed(
                    below@,
                    a,
                    b,
                    c,
                    ny as int,
                    nz as int,
                )),
            faces@.len() <= 12 * (i * ny * nz),
            12 * ((i * ny) * nz) <= 12 * ((nx * ny) * nz),
            spec_mc_faces_ok(faces@, below@, interp),
            uniform ==> faces@.len() == 0,
            no_mixed ==> faces@.len() == 0,
            (exists|a: int, b: int, c: int|
                0 <= a < i && 0 <= b < ny && 0 <= c < nz && #[trigger] spec_cell_mixed(
                    below@,
                    a,
                    b,
                    c,
                    ny as int,
                    nz as int,
                )) ==> faces@.len() > 0,
        decreases nx - i,
    {
        proof {
            assert(12 * ((i * ny) * nz) <= 12 * ((nx * ny) * nz)) by (nonlinear_arith)
                requires
                    0 <= i <= nx,
                    0 <= ny,
                    0 <= nz,
            ;
            assert(12 * ((i * ny) * nz + 0 * nz) == 12 * ((i * ny) * nz)) by (nonlinear_arith);
        }
        let mut j: usize = 0;
        while j < ny
            invariant
                i < nx,
                j <= ny,
                below@.len() == (nx + 1) * (ny + 1) * (nz + 1),
                (nx + 1) * (ny + 1) * (nz + 1) <= usize::MAX,
                (nx + 1) * (ny + 1) * (nz + 1) <= i64::MAX,
                36 * ((nx * ny) * nz) + 40 <= usize::MAX,
                36 * ((nx * ny) * nz) + 40 <= i64::MAX,
                forall|ga: u64, gb: u64| #[trigger] call_requires(interp, (ga, gb)),
                uniform == (forall|g: int| 0 <= g < below@.len() ==> #[trigger] below@[g] == below@[0]),
                no_mixed == (forall|a: int, b: int, c: int|
                    0 <= a < nx && 0 <= b < ny && 0 <= c < nz ==> !#[trigger] spec_cell_mixed(
                        below@,
                        a,
                        b,
                        c,
                        ny as int,
                        nz as int,
                    )),
                faces@.len() <= 12 * ((i * ny) * nz + j * nz),
                12 * ((i * ny) * nz + j * nz) <= 12 * ((nx * ny) * nz),
                spec_mc_faces_ok(faces@, below@, interp),
                uniform ==> faces@.len() == 0,
                no_mixed ==> faces@.len() == 0,
                (exists|a: int, b: int, c: int|
                    0 <= a < nx && 0 <= b < ny && 0 <= c < nz && (a < i || (a == i && b < j))
                        && #[trigger] spec_cell_mixed(
                        below@,
                        a,
                        b,
                        c,
                        ny as int,
                        nz as int,
                    )) ==> faces@.len() > 0,
            decreases ny - j,
        {
            let mut k: usize = 0;
            while k < nz
                invariant
                    i < nx,
                    j < ny,
                    k <= nz,
                    below@.len() == (nx + 1) * (ny + 1) * (nz + 1),
                    (nx + 1) * (ny + 1) * (nz + 1) <= usize::MAX,
                    (nx + 1) * (ny + 1) * (nz + 1) <= i64::MAX,
                    36 * ((nx * ny) * nz) + 40 <= usize::MAX,
                    36 * ((nx * ny) * nz) + 40 <= i64::MAX,
                    forall|ga: u64, gb: u64| #[trigger] call_requires(interp, (ga, gb)),
                    uniform == (forall|g: int| 0 <= g < below@.len() ==> #[trigger] below@[g] == below@[0]),
                    no_mixed == (forall|a: int, b: int, c: int|
                        0 <= a < nx && 0 <= b < ny && 0 <= c < nz ==> !#[trigger] spec_cell_mixed(
                            below@,
                            a,
                            b,
                            c,
                            ny as int,
                            nz as int,
                        )),
                    faces@.len() <= 12 * ((i * ny) * nz + j * nz + k),
                    12 * ((i * ny) * nz + j * nz + k) <= 12 * ((nx * ny) * nz),
                    spec_mc_faces_ok(faces@, below@, interp),
                    uniform ==> faces@.len() == 0,
                    no_mixed ==> faces@.len() == 0,
                    (exists|a: int, b: int, c: int|
                        0 <= a < nx && 0 <= b < ny && 0 <= c < nz && (a < i || (a == i && b < j)
                            || (a == i && b == j && c < k)) && #[trigger] spec_cell_mixed(
                            below@,
                            a,
                            b,
                            c,
                            ny as int,
                            nz as int,
                        )) ==> faces@.len() > 0,
                decreases nz - k,
            {
                let ghost fpre = faces@;
                mc_cell(i, j, k, nx, ny, nz, below, &interp, &mut faces);
                proof {
                    if uniform {
                        assert(faces@ == fpre);
                    }
                }
                k += 1;
                proof {
                    assert(12 * ((i * ny) * nz + j * nz + k) <= 12 * ((nx * ny) * nz))
                        by (nonlinear_arith)
                        requires
                            0 <= i < nx,
                            0 <= j < ny,
                            0 <= k <= nz,
                    ;
                }
            }
            j += 1;
            proof {
                assert(12 * ((i * ny) * nz + (j - 1) * nz + nz) == 12 * ((i * ny) * nz + j * nz))
                    by (nonlinear_arith);
                assert(12 * ((i * ny) * nz + j * nz) <= 12 * ((nx * ny) * nz))
                    by (nonlinear_arith)
                    requires
                        0 <= i < nx,
                        0 <= j <= ny,
                        0 <= nz,
                ;
            }
        }
        i += 1;
        proof {
            assert(12 * (((i - 1) * ny) * nz + ny * nz) == 12 * ((i * ny) * nz))
                by (nonlinear_arith);
        }
    }
    faces
}

} // verus!
