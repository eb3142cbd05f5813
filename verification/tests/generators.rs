use meshing::advancing_front::{advancing_front, FrontChoice};
use meshing::delaunay_refinement::delaunay_refinement;
use meshing::marching_cubes::marching_cubes;
use meshing::octree::octree_mesh;
use meshing::voxel_mesh::voxel_mesh;
use meshing::export::{faces_to_obj, TextFace, TextPoint3};
use meshing::{bowyer_watson, bowyer_watson_3d};
use meshing::{Coord, Face, MeshingError, Point2D, Point3D, Tetrahedron, Triangle};

fn c(v: f64) -> Coord {
    Coord { bits: v.to_bits() }
}

fn f(c: Coord) -> f64 {
    f64::from_bits(c.bits)
}

fn p2(index: i64, x: f64, y: f64) -> Point2D {
    Point2D {
        index,
        x: c(x),
        y: c(y),
    }
}

fn p3(index: i64, x: f64, y: f64, z: f64) -> Point3D {
    Point3D {
        index,
        x: c(x),
        y: c(y),
        z: c(z),
    }
}

/// Circumcircle membership (inclusive) for the planar driver.
fn in_circumcircle(t: Triangle, p: Point2D) -> bool {
    let (ax, ay) = (f(t.a.x), f(t.a.y));
    let (bx, by) = (f(t.b.x), f(t.b.y));
    let (cx, cy) = (f(t.c.x), f(t.c.y));
    let d = 2.0 * (ax * (by - cy) + bx * (cy - ay) + cx * (ay - by));
    let ux = ((ax * ax + ay * ay) * (by - cy)
        + (bx * bx + by * by) * (cy - ay)
        + (cx * cx + cy * cy) * (ay - by))
        / d;
    let uy = ((ax * ax + ay * ay) * (cx - bx)
        + (bx * bx + by * by) * (ax - cx)
        + (cx * cx + cy * cy) * (bx - ax))
        / d;
    let r2 = (ax - ux) * (ax - ux) + (ay - uy) * (ay - uy);
    let (px, py) = (f(p.x), f(p.y));
    let dist2 = (px - ux) * (px - ux) + (py - uy) * (py - uy);
    dist2 <= r2
}

/// A scale-adaptive enclosing triangle with sentinel labels.
fn super_triangle(points: &[Point2D]) -> Triangle {
    let mut min_x = f64::MAX;
    let mut min_y = f64::MAX;
    let mut max_x = f64::MIN;
    let mut max_y = f64::MIN;
    for p in points {
        min_x = min_x.min(f(p.x));
        min_y = min_y.min(f(p.y));
        max_x = max_x.max(f(p.x));
        max_y = max_y.max(f(p.y));
    }
    let spread = (max_x - min_x).max(max_y - min_y);
    let margin = (spread + 1.0) * 10.0;
    Triangle {
        a: p2(-1, min_x - margin, min_y - margin),
        b: p2(-2, max_x + margin, min_y - margin),
        c: p2(-3, (min_x + max_x) / 2.0, max_y + margin),
    }
}

fn circumsphere(t: &Tetrahedron) -> (f64, f64, f64, f64) {
    let (ax, ay, az) = (f(t.a.x), f(t.a.y), f(t.a.z));
    let bx = f(t.b.x) - ax;
    let by = f(t.b.y) - ay;
    let bz = f(t.b.z) - az;
    let cx = f(t.c.x) - ax;
    let cy = f(t.c.y) - ay;
    let cz = f(t.c.z) - az;
    let dx = f(t.d.x) - ax;
    let dy = f(t.d.y) - ay;
    let dz = f(t.d.z) - az;
    let b_sq = bx * bx + by * by + bz * bz;
    let c_sq = cx * cx + cy * cy + cz * cz;
    let d_sq = dx * dx + dy * dy + dz * dz;
    let det = bx * (cy * dz - cz * dy) - by * (cx * dz - cz * dx) + bz * (cx * dy - cy * dx);
    let inv_det = 1.0 / (2.0 * det);
    let ux = (b_sq * (cy * dz - cz * dy) - c_sq * (by * dz - bz * dy) + d_sq * (by * cz - bz * cy))
        * inv_det;
    let uy = -(b_sq * (cx * dz - cz * dx) - c_sq * (bx * dz - bz * dx) + d_sq * (bx * cz - bz * cx))
        * inv_det;
    let uz = (b_sq * (cx * dy - cy * dx) - c_sq * (bx * dy - by * dx) + d_sq * (bx * cy - by * cx))
        * inv_det;
    let (px, py, pz) = (ux + ax, uy + ay, uz + az);
    let radius = ((px - ax) * (px - ax) + (py - ay) * (py - ay) + (pz - az) * (pz - az)).sqrt();
    (px, py, pz, radius)
}

fn in_circumsphere(t: Tetrahedron, p: Point3D) -> bool {
    let (ux, uy, uz, r) = circumsphere(&t);
    let dx = f(p.x) - ux;
    let dy = f(p.y) - uy;
    let dz = f(p.z) - uz;
    dx * dx + dy * dy + dz * dz <= r * r
}

fn super_tetrahedron(points: &[Point3D]) -> Tetrahedron {
    let mut min_x = f64::MAX;
    let mut min_y = f64::MAX;
    let mut min_z = f64::MAX;
    let mut max_x = f64::MIN;
    let mut max_y = f64::MIN;
    let mut max_z = f64::MIN;
    for p in points {
        min_x = min_x.min(f(p.x));
        min_y = min_y.min(f(p.y));
        min_z = min_z.min(f(p.z));
        max_x = max_x.max(f(p.x));
        max_y = max_y.max(f(p.y));
        max_z = max_z.max(f(p.z));
    }
    let mid_x = (min_x + max_x) / 2.0;
    let mid_y = (min_y + max_y) / 2.0;
    let mid_z = (min_z + max_z) / 2.0;
    let d = (max_x - min_x).max(max_y - min_y).max(max_z - min_z);
    let margin = d * 100.0 + 100.0;
    let base = i64::MIN;
    Tetrahedron {
        a: p3(base, mid_x - margin, mid_y - margin, mid_z - margin),
        b: p3(base + 1, mid_x + margin, mid_y - margin, mid_z - margin),
        c: p3(base + 2, mid_x, mid_y + margin, mid_z - margin),
        d: p3(base + 3, mid_x, mid_y, mid_z + margin),
    }
}

fn signed_volume(t: &Tetrahedron) -> f64 {
    let ux = f(t.b.x) - f(t.a.x);
    let uy = f(t.b.y) - f(t.a.y);
    let uz = f(t.b.z) - f(t.a.z);
    let vx = f(t.c.x) - f(t.a.x);
    let vy = f(t.c.y) - f(t.a.y);
    let vz = f(t.c.z) - f(t.a.z);
    let wx = f(t.d.x) - f(t.a.x);
    let wy = f(t.d.y) - f(t.a.y);
    let wz = f(t.d.z) - f(t.a.z);
    (ux * (vy * wz - vz * wy) - uy * (vx * wz - vz * wx) + uz * (vx * wy - vy * wx)) / 6.0
}

fn delaunay_2d(points: Vec<Point2D>) -> Result<Vec<Triangle>, MeshingError> {
    let st = super_triangle(&points);
    bowyer_watson(points, st, in_circumcircle)
}

fn delaunay_3d(points: Vec<Point3D>) -> Vec<Tetrahedron> {
    let st = super_tetrahedron(&points);
    bowyer_watson_3d(points, st, in_circumsphere)
}

/// The advancing-front apex search: the nearest point on the positive normal
/// side, then the negative side, then a synthesized point along the normal.
fn pick_apex(face: Face, all_points: &Vec<Point3D>) -> FrontChoice {
    let (ax, ay, az) = (f(face.a.x), f(face.a.y), f(face.a.z));
    let ux = f(face.b.x) - ax;
    let uy = f(face.b.y) - ay;
    let uz = f(face.b.z) - az;
    let vx = f(face.c.x) - ax;
    let vy = f(face.c.y) - ay;
    let vz = f(face.c.z) - az;
    let mut nx = uy * vz - uz * vy;
    let mut ny = uz * vx - ux * vz;
    let mut nz = ux * vy - uy * vx;
    let len = (nx * nx + ny * ny + nz * nz).sqrt();
    if len < 1e-15 {
        nx = 0.0;
        ny = 0.0;
        nz = 0.0;
    } else {
        nx /= len;
        ny /= len;
        nz /= len;
    }
    let cx = (f(face.a.x) + f(face.b.x) + f(face.c.x)) / 3.0;
    let cy = (f(face.a.y) + f(face.b.y) + f(face.c.y)) / 3.0;
    let cz = (f(face.a.z) + f(face.b.z) + f(face.c.z)) / 3.0;

    let verts = [face.a, face.b, face.c];
    let mut best: Option<Point3D> = None;
    let mut best_dist = f64::MAX;
    for &p in all_points.iter() {
        if verts.contains(&p) {
            continue;
        }
        let dx = f(p.x) - cx;
        let dy = f(p.y) - cy;
        let dz = f(p.z) - cz;
        let side = nx * dx + ny * dy + nz * dz;
        if side > 1e-10 {
            let dist = dx * dx + dy * dy + dz * dz;
            if dist < best_dist {
                best_dist = dist;
                best = Some(p);
            }
        }
    }
    if best.is_none() {
        for &p in all_points.iter() {
            if verts.contains(&p) {
                continue;
            }
            let dx = f(p.x) - cx;
            let dy = f(p.y) - cy;
            let dz = f(p.z) - cz;
            let side = nx * dx + ny * dy + nz * dz;
            if side < -1e-10 {
                let dist = dx * dx + dy * dy + dz * dz;
                if dist < best_dist {
                    best_dist = dist;
                    best = Some(p);
                }
            }
        }
    }
    match best {
        Some(p) => FrontChoice::Existing(p),
        None => {
            let dist_ab = dist(&face.a, &face.b);
            let dist_bc = dist(&face.b, &face.c);
            let dist_ac = dist(&face.a, &face.c);
            let edge_len = dist_ab.min(dist_bc).min(dist_ac);
            let ideal = edge_len * 0.8;
            FrontChoice::Fresh(
                c(cx + nx * ideal),
                c(cy + ny * ideal),
                c(cz + nz * ideal),
            )
        }
    }
}

fn dist(a: &Point3D, b: &Point3D) -> f64 {
    let dx = f(a.x) - f(b.x);
    let dy = f(a.y) - f(b.y);
    let dz = f(a.z) - f(b.z);
    (dx * dx + dy * dy + dz * dz).sqrt()
}

fn shortest_edge(t: &Tetrahedron) -> f64 {
    let v = [t.a, t.b, t.c, t.d];
    let mut min_len = f64::MAX;
    for i in 0..4 {
        for j in (i + 1)..4 {
            let d = dist(&v[i], &v[j]);
            if d < min_len {
                min_len = d;
            }
        }
    }
    min_len
}

fn radius_edge_ratio(t: &Tetrahedron) -> f64 {
    let (_, _, _, r) = circumsphere(t);
    r / shortest_edge(t)
}

/// The refinement judge for a quality threshold: the circumcenter of the
/// worst tetrahedron, or nothing once the mesh is good enough.
fn make_pick_split(max_ratio: f64) -> impl Fn(&Vec<Tetrahedron>) -> Option<(Coord, Coord, Coord)> {
    move |mesh: &Vec<Tetrahedron>| {
        let mut worst: Option<&Tetrahedron> = None;
        let mut worst_ratio = f64::MIN;
        for t in mesh.iter() {
            let r = radius_edge_ratio(t);
            // on a tie (or an incomparable ratio) the later tetrahedron wins
            let keep_new = worst.is_none()
                || !matches!(r.partial_cmp(&worst_ratio), Some(std::cmp::Ordering::Less));
            if keep_new {
                worst_ratio = r;
                worst = Some(t);
            }
        }
        let worst = worst?;
        if radius_edge_ratio(worst) <= max_ratio {
            return None;
        }
        let (ux, uy, uz, _) = circumsphere(worst);
        Some((c(ux), c(uy), c(uz)))
    }
}

fn make_super(pl: &Vec<Point3D>) -> Tetrahedron {
    super_tetrahedron(pl)
}

fn refine(points: Vec<Point3D>, max_ratio: f64) -> Vec<Tetrahedron> {
    delaunay_refinement(points, make_super, in_circumsphere, make_pick_split(max_ratio))
}

// ---------------------------------------------------------------- 2D driver

#[test]
fn test_bowyer_watson() {
    let square = vec![
        p2(0, 0.0, 0.0),
        p2(1, 1.0, 0.0),
        p2(2, 0.0, 1.0),
        p2(3, 1.0, 1.0),
    ];
    let result = delaunay_2d(square).unwrap();
    assert_eq!(result.len(), 2);
}

#[test]
fn test_bowyer_watson_empty_input() {
    let result = delaunay_2d(vec![]);
    assert!(result.is_err());
    assert_eq!(
        result.unwrap_err().message(),
        "input points vector is empty"
    );
}

#[test]
fn test_bowyer_watson_insufficient_points() {
    let points = vec![p2(0, 0.0, 0.0), p2(1, 1.0, 0.0)];
    let result = delaunay_2d(points);
    assert!(result.is_err());
    assert_eq!(
        result.unwrap_err().message(),
        "insufficient points for triangulation: need at least 3, got 2"
    );
}

#[test]
fn test_bowyer_watson_no_super_vertex_leaks() {
    let points = vec![
        p2(0, 0.0, 0.0),
        p2(1, 1.0, 0.0),
        p2(2, 0.0, 1.0),
        p2(3, 1.0, 1.0),
        p2(4, 0.4, 0.6),
    ];
    let result = delaunay_2d(points.clone()).unwrap();
    for t in &result {
        for v in [t.a, t.b, t.c] {
            assert!(points.contains(&v));
        }
    }
}

#[test]
fn test_bowyer_watson_circumcircle_property() {
    // no input point lies strictly inside the circumcircle of any triangle
    let points = vec![
        p2(0, 0.0, 0.0),
        p2(1, 2.0, 0.1),
        p2(2, 0.3, 1.8),
        p2(3, 2.2, 2.1),
        p2(4, 1.0, 1.0),
        p2(5, 0.1, 0.9),
    ];
    let result = delaunay_2d(points.clone()).unwrap();
    for t in &result {
        let (ax, ay) = (f(t.a.x), f(t.a.y));
        let (bx, by) = (f(t.b.x), f(t.b.y));
        let (cx, cy) = (f(t.c.x), f(t.c.y));
        let d = 2.0 * (ax * (by - cy) + bx * (cy - ay) + cx * (ay - by));
        let ux = ((ax * ax + ay * ay) * (by - cy)
            + (bx * bx + by * by) * (cy - ay)
            + (cx * cx + cy * cy) * (ay - by))
            / d;
        let uy = ((ax * ax + ay * ay) * (cx - bx)
            + (bx * bx + by * by) * (ax - cx)
            + (cx * cx + cy * cy) * (bx - ax))
            / d;
        let r2 = (ax - ux) * (ax - ux) + (ay - uy) * (ay - uy);
        for p in &points {
            if [t.a, t.b, t.c].contains(p) {
                continue;
            }
            let dist2 = (f(p.x) - ux) * (f(p.x) - ux) + (f(p.y) - uy) * (f(p.y) - uy);
            assert!(
                dist2 >= r2 - 1e-9,
                "input point strictly inside a circumcircle"
            );
        }
    }
}

// ---------------------------------------------------------------- 3D driver

#[test]
fn test_bowyer_watson_3d_single_tetrahedron() {
    let points = vec![
        p3(0, 0.0, 0.0, 0.0),
        p3(1, 1.0, 0.0, 0.0),
        p3(2, 0.5, 1.0, 0.0),
        p3(3, 0.5, 0.5, 1.0),
    ];
    let result = delaunay_3d(points);
    assert_eq!(result.len(), 1);
}

#[test]
fn test_bowyer_watson_3d_cube() {
    let points = vec![
        p3(0, 0.0, 0.0, 0.0),
        p3(1, 1.0, 0.0, 0.0),
        p3(2, 0.0, 1.0, 0.0),
        p3(3, 1.0, 1.0, 0.0),
        p3(4, 0.0, 0.0, 1.0),
        p3(5, 1.0, 0.0, 1.0),
        p3(6, 0.0, 1.0, 1.0),
        p3(7, 1.0, 1.0, 1.0),
    ];
    let result = delaunay_3d(points);
    assert!(result.len() >= 5);
    for tet in &result {
        for v in [tet.a, tet.b, tet.c, tet.d] {
            assert!(v.index >= 0 && v.index <= 7);
        }
    }
}

#[test]
fn test_bowyer_watson_3d_empty_points_empty_mesh() {
    // with fewer than four points every tetrahedron keeps a super vertex
    let points = vec![p3(0, 0.0, 0.0, 0.0), p3(1, 1.0, 0.0, 0.0)];
    let result = delaunay_3d(points);
    assert!(result.is_empty());
}

// ---------------------------------------------------------------- voxel

fn voxel(
    min: (f64, f64, f64),
    max: (f64, f64, f64),
    nx: usize,
    ny: usize,
    nz: usize,
    pred: impl Fn(f64, f64, f64) -> bool,
) -> Vec<Tetrahedron> {
    let dx = (max.0 - min.0) / nx as f64;
    let dy = (max.1 - min.1) / ny as f64;
    let dz = (max.2 - min.2) / nz as f64;
    let cell_inside = move |i: usize, j: usize, k: usize| {
        pred(
            min.0 + (i as f64 + 0.5) * dx,
            min.1 + (j as f64 + 0.5) * dy,
            min.2 + (k as f64 + 0.5) * dz,
        )
    };
    let corner = move |ix: usize, iy: usize, iz: usize| {
        (
            c(min.0 + ix as f64 * dx),
            c(min.1 + iy as f64 * dy),
            c(min.2 + iz as f64 * dz),
        )
    };
    voxel_mesh(nx, ny, nz, cell_inside, corner)
}

#[test]
fn test_single_cell_always_inside() {
    let result = voxel((0.0, 0.0, 0.0), (1.0, 1.0, 1.0), 1, 1, 1, |_, _, _| true);
    assert_eq!(result.len(), 5);
}

#[test]
fn test_2x2x2_all_inside() {
    let result = voxel((0.0, 0.0, 0.0), (1.0, 1.0, 1.0), 2, 2, 2, |_, _, _| true);
    assert_eq!(result.len(), 40);
}

#[test]
fn test_sphere_containment() {
    let result = voxel((-1.0, -1.0, -1.0), (1.0, 1.0, 1.0), 4, 4, 4, |x, y, z| {
        x * x + y * y + z * z <= 1.0
    });
    assert!(!result.is_empty());
    assert!(result.len() < 64 * 5);
}

#[test]
fn test_empty_domain() {
    let result = voxel((0.0, 0.0, 0.0), (1.0, 1.0, 1.0), 4, 4, 4, |_, _, _| false);
    assert!(result.is_empty());
}

#[test]
fn test_all_tetrahedra_have_nonzero_volume() {
    let result = voxel((0.0, 0.0, 0.0), (1.0, 1.0, 1.0), 3, 3, 3, |_, _, _| true);
    for tet in &result {
        assert!(
            signed_volume(tet).abs() > 1e-15,
            "Degenerate tetrahedron found"
        );
    }
}

#[test]
fn test_asymmetric_resolution() {
    let result = voxel((0.0, 0.0, 0.0), (1.0, 1.0, 1.0), 1, 2, 3, |_, _, _| true);
    assert_eq!(result.len(), 30);
}

#[test]
fn test_shared_vertex_indices() {
    let result = voxel((0.0, 0.0, 0.0), (1.0, 1.0, 1.0), 2, 2, 2, |_, _, _| true);
    let mut indices: Vec<i64> = Vec::new();
    for tet in &result {
        for v in [tet.a, tet.b, tet.c, tet.d] {
            if !indices.contains(&v.index) {
                indices.push(v.index);
            }
        }
    }
    assert_eq!(indices.len(), 27);
}

// ---------------------------------------------------------------- octree

fn octree(
    min: (f64, f64, f64),
    max: (f64, f64, f64),
    depth: usize,
    pred: impl Fn(f64, f64, f64) -> bool,
) -> Vec<Tetrahedron> {
    let is_inside = move |p: Point3D| pred(f(p.x), f(p.y), f(p.z));
    let mid = |a: Coord, b: Coord| c((f(a) + f(b)) / 2.0);
    octree_mesh(
        p3(0, min.0, min.1, min.2),
        p3(0, max.0, max.1, max.2),
        depth,
        is_inside,
        mid,
    )
}

#[test]
fn octree_test_single_cell_always_inside() {
    let result = octree((0.0, 0.0, 0.0), (1.0, 1.0, 1.0), 0, |_, _, _| true);
    assert_eq!(result.len(), 5);
}

#[test]
fn test_depth_1_all_inside() {
    let result = octree((0.0, 0.0, 0.0), (1.0, 1.0, 1.0), 1, |_, _, _| true);
    assert_eq!(result.len(), 40);
}

#[test]
fn octree_test_sphere_containment() {
    let result = octree((-1.0, -1.0, -1.0), (1.0, 1.0, 1.0), 2, |x, y, z| {
        x * x + y * y + z * z <= 1.0
    });
    assert!(!result.is_empty());
    assert!(result.len() < 64 * 5);
}

#[test]
fn octree_test_all_tetrahedra_have_nonzero_volume() {
    let result = octree((0.0, 0.0, 0.0), (1.0, 1.0, 1.0), 2, |_, _, _| true);
    for tet in &result {
        assert!(
            signed_volume(tet).abs() > 1e-15,
            "Degenerate tetrahedron found"
        );
    }
}

#[test]
fn test_depth_2_cell_count() {
    let result = octree((0.0, 0.0, 0.0), (1.0, 1.0, 1.0), 2, |_, _, _| true);
    assert_eq!(result.len(), 320);
}

#[test]
fn test_partial_containment() {
    let result = octree((0.0, 0.0, 0.0), (2.0, 2.0, 2.0), 1, |x, _, _| x < 1.0);
    assert_eq!(result.len(), 4 * 5);
}

#[test]
fn octree_test_empty_domain() {
    let result = octree((0.0, 0.0, 0.0), (1.0, 1.0, 1.0), 2, |_, _, _| false);
    assert!(result.is_empty());
}

// ---------------------------------------------------------------- advancing front

#[test]
fn test_empty_input() {
    let result = advancing_front(Vec::new(), Vec::new(), pick_apex);
    assert!(result.is_empty());
}

#[test]
fn test_single_tetrahedron() {
    let p0 = p3(0, 0.0, 0.0, 0.0);
    let p1 = p3(1, 1.0, 0.0, 0.0);
    let p2v = p3(2, 0.5, 1.0, 0.0);
    let p3v = p3(3, 0.5, 0.3, 1.0);
    let faces = vec![
        Face { a: p0, b: p2v, c: p1 },
        Face { a: p0, b: p1, c: p3v },
        Face { a: p1, b: p2v, c: p3v },
        Face { a: p0, b: p3v, c: p2v },
    ];
    let points = vec![p0, p1, p2v, p3v];
    let result = advancing_front(faces, points, pick_apex);
    assert!(!result.is_empty());
    assert!(result.len() >= 1);
}

#[test]
fn advancing_front_test_all_tetrahedra_have_nonzero_volume() {
    let p0 = p3(0, 0.0, 0.0, 0.0);
    let p1 = p3(1, 1.0, 0.0, 0.0);
    let p2v = p3(2, 0.5, 1.0, 0.0);
    let p3v = p3(3, 0.5, 0.3, 1.0);
    let faces = vec![
        Face { a: p0, b: p2v, c: p1 },
        Face { a: p0, b: p1, c: p3v },
        Face { a: p1, b: p2v, c: p3v },
        Face { a: p0, b: p3v, c: p2v },
    ];
    let points = vec![p0, p1, p2v, p3v];
    let result = advancing_front(faces, points, pick_apex);
    for tet in &result {
        assert!(
            signed_volume(tet).abs() > 1e-15,
            "Degenerate tetrahedron found"
        );
    }
}

#[test]
fn test_faces_no_points() {
    let p0 = p3(0, 0.0, 0.0, 0.0);
    let p1 = p3(1, 1.0, 0.0, 0.0);
    let p2v = p3(2, 0.5, 1.0, 0.0);
    let faces = vec![Face { a: p0, b: p1, c: p2v }];
    let result = advancing_front(faces, Vec::new(), pick_apex);
    assert!(!result.is_empty());
}

#[test]
fn test_cube_surface() {
    let p = [
        p3(0, 0.0, 0.0, 0.0),
        p3(1, 1.0, 0.0, 0.0),
        p3(2, 1.0, 1.0, 0.0),
        p3(3, 0.0, 1.0, 0.0),
        p3(4, 0.0, 0.0, 1.0),
        p3(5, 1.0, 0.0, 1.0),
        p3(6, 1.0, 1.0, 1.0),
        p3(7, 0.0, 1.0, 1.0),
    ];
    let faces = vec![
        Face { a: p[0], b: p[1], c: p[2] },
        Face { a: p[0], b: p[2], c: p[3] },
        Face { a: p[4], b: p[6], c: p[5] },
        Face { a: p[4], b: p[7], c: p[6] },
        Face { a: p[0], b: p[5], c: p[1] },
        Face { a: p[0], b: p[4], c: p[5] },
        Face { a: p[2], b: p[7], c: p[3] },
        Face { a: p[2], b: p[6], c: p[7] },
        Face { a: p[0], b: p[3], c: p[7] },
        Face { a: p[0], b: p[7], c: p[4] },
        Face { a: p[1], b: p[5], c: p[6] },
        Face { a: p[1], b: p[6], c: p[2] },
    ];
    let points = p.to_vec();
    let result = advancing_front(faces, points, pick_apex);
    assert!(!result.is_empty());
    assert!(result.len() >= 5);
}

#[test]
fn test_synthesized_labels_avoid_caller_labels() {
    // with no candidate points the front synthesizes the apex; its label
    // must not collide with any caller label
    let p0 = p3(100, 0.0, 0.0, 0.0);
    let p1 = p3(200, 1.0, 0.0, 0.0);
    let p2v = p3(300, 0.5, 1.0, 0.0);
    let faces = vec![Face { a: p0, b: p1, c: p2v }];
    let result = advancing_front(faces, Vec::new(), pick_apex);
    assert!(!result.is_empty());
    let apex = result[0].d;
    assert!(apex.index > 300);
}

// ---------------------------------------------------------------- refinement

#[test]
fn test_regular_tetrahedron_with_loose_threshold() {
    let points = vec![
        p3(0, 1.0, 1.0, 1.0),
        p3(1, 1.0, -1.0, -1.0),
        p3(2, -1.0, 1.0, -1.0),
        p3(3, -1.0, -1.0, 1.0),
    ];
    let result = refine(points, 10.0);
    assert_eq!(result.len(), 1);
}

#[test]
fn test_cube_vertices_produce_valid_mesh() {
    let points = vec![
        p3(0, 0.0, 0.0, 0.0),
        p3(1, 1.0, 0.0, 0.0),
        p3(2, 0.0, 1.0, 0.0),
        p3(3, 1.0, 1.0, 0.0),
        p3(4, 0.0, 0.0, 1.0),
        p3(5, 1.0, 0.0, 1.0),
        p3(6, 0.0, 1.0, 1.0),
        p3(7, 1.0, 1.0, 1.0),
    ];
    let result = refine(points, 2.0);
    assert!(!result.is_empty());
}

#[test]
fn test_tight_threshold_adds_points() {
    let points = vec![
        p3(0, 0.0, 0.0, 0.0),
        p3(1, 1.0, 0.0, 0.0),
        p3(2, 0.0, 1.0, 0.0),
        p3(3, 1.0, 1.0, 0.0),
        p3(4, 0.0, 0.0, 1.0),
        p3(5, 1.0, 0.0, 1.0),
        p3(6, 0.0, 1.0, 1.0),
        p3(7, 1.0, 1.0, 1.0),
    ];
    let initial = delaunay_3d(points.clone());
    let refined = refine(points, 1.5);
    assert!(refined.len() >= initial.len());
}

#[test]
fn test_all_refined_tetrahedra_have_nonzero_volume() {
    let points = vec![
        p3(0, 0.0, 0.0, 0.0),
        p3(1, 1.0, 0.0, 0.0),
        p3(2, 0.5, 1.0, 0.0),
        p3(3, 0.5, 0.5, 1.0),
    ];
    let result = refine(points, 2.0);
    for tet in &result {
        assert!(
            signed_volume(tet).abs() > 1e-15,
            "Degenerate tetrahedron found"
        );
    }
}

#[test]
fn test_refinement_produces_at_least_as_many_tets() {
    let points = vec![
        p3(0, 0.0, 0.0, 0.0),
        p3(1, 1.0, 0.0, 0.0),
        p3(2, 0.0, 1.0, 0.0),
        p3(3, 1.0, 1.0, 0.0),
        p3(4, 0.0, 0.0, 1.0),
        p3(5, 1.0, 0.0, 1.0),
        p3(6, 0.0, 1.0, 1.0),
        p3(7, 1.0, 1.0, 1.0),
    ];
    let initial = delaunay_3d(points.clone());
    let refined = refine(points, 2.0);
    assert!(refined.len() >= initial.len());
}

#[test]
fn test_refinement_is_idempotent_on_count() {
    // refining a quality-satisfying mesh inserts nothing more
    let points = vec![
        p3(0, 1.0, 1.0, 1.0),
        p3(1, 1.0, -1.0, -1.0),
        p3(2, -1.0, 1.0, -1.0),
        p3(3, -1.0, -1.0, 1.0),
    ];
    let once = refine(points.clone(), 10.0);
    let twice = {
        // rebuild from the refined mesh's own points
        let mut pts: Vec<Point3D> = Vec::new();
        for t in &once {
            for v in [t.a, t.b, t.c, t.d] {
                if !pts.iter().any(|p| p.index == v.index) {
                    pts.push(v);
                }
            }
        }
        refine(pts, 10.0)
    };
    assert_eq!(once.len(), twice.len());
}

// ---------------------------------------------------------------- marching cubes

fn run_marching_cubes(
    nx: usize,
    ny: usize,
    nz: usize,
    min: (f64, f64, f64),
    max: (f64, f64, f64),
    field: impl Fn(f64, f64, f64) -> f64 + Copy + 'static,
    iso: f64,
) -> Vec<Face> {
    let dx = (max.0 - min.0) / nx as f64;
    let dy = (max.1 - min.1) / ny as f64;
    let dz = (max.2 - min.2) / nz as f64;
    let gpos = move |g: usize| {
        let ix = g / ((ny + 1) * (nz + 1));
        let rest = g % ((ny + 1) * (nz + 1));
        let iy = rest / (nz + 1);
        let iz = rest % (nz + 1);
        (
            min.0 + ix as f64 * dx,
            min.1 + iy as f64 * dy,
            min.2 + iz as f64 * dz,
        )
    };
    let mut below = Vec::new();
    for g in 0..((nx + 1) * (ny + 1) * (nz + 1)) {
        let (x, y, z) = gpos(g);
        below.push(field(x, y, z) < iso);
    }
    let interp = move |ga: u64, gb: u64| {
        let (xa, ya, za) = gpos(ga as usize);
        let (xb, yb, zb) = gpos(gb as usize);
        let va = field(xa, ya, za);
        let vb = field(xb, yb, zb);
        let t = if (vb - va).abs() < 1e-300 {
            0.5
        } else {
            (iso - va) / (vb - va)
        };
        (
            c(xa + t * (xb - xa)),
            c(ya + t * (yb - ya)),
            c(za + t * (zb - za)),
        )
    };
    marching_cubes(nx, ny, nz, &below, interp)
}

#[test]
fn test_marching_cubes_sphere() {
    let faces = run_marching_cubes(
        20,
        20,
        20,
        (-2.0, -2.0, -2.0),
        (2.0, 2.0, 2.0),
        |x, y, z| x * x + y * y + z * z - 1.0,
        0.0,
    );
    assert!(!faces.is_empty());
    // every vertex lies close to the unit sphere
    for face in &faces {
        for v in [face.a, face.b, face.c] {
            let r = (f(v.x) * f(v.x) + f(v.y) * f(v.y) + f(v.z) * f(v.z)).sqrt();
            assert!((r - 1.0).abs() < 0.1, "vertex far from the isosurface");
        }
    }
}

#[test]
fn test_marching_cubes_no_sign_change() {
    let faces = run_marching_cubes(
        4,
        4,
        4,
        (-1.0, -1.0, -1.0),
        (1.0, 1.0, 1.0),
        |_, _, _| 10.0,
        0.0,
    );
    assert!(faces.is_empty());
}

#[test]
fn test_obj_from_marching_cubes_sphere() {
    let faces = run_marching_cubes(
        6,
        6,
        6,
        (-2.0, -2.0, -2.0),
        (2.0, 2.0, 2.0),
        |x, y, z| x * x + y * y + z * z - 1.0,
        0.0,
    );
    assert!(!faces.is_empty());
    let text: Vec<TextFace> = faces
        .iter()
        .map(|face| TextFace {
            a: text_point(&face.a),
            b: text_point(&face.b),
            c: text_point(&face.c),
        })
        .collect();
    let obj = faces_to_obj(&text);
    let vertex_lines: Vec<&str> = obj.lines().filter(|l| l.starts_with("v ")).collect();
    let face_lines: Vec<&str> = obj.lines().filter(|l| l.starts_with("f ")).collect();
    assert!(!vertex_lines.is_empty());
    assert_eq!(face_lines.len(), faces.len());
    let num_verts = vertex_lines.len();
    for line in &face_lines {
        let indices: Vec<usize> = line[2..]
            .split_whitespace()
            .map(|s| s.parse::<usize>().unwrap())
            .collect();
        assert_eq!(indices.len(), 3);
        for idx in indices {
            assert!(idx >= 1 && idx <= num_verts);
        }
    }
}

fn text_point(p: &Point3D) -> TextPoint3 {
    TextPoint3 {
        index: p.index,
        x: format!("{}", f(p.x)),
        y: format!("{}", f(p.y)),
        z: format!("{}", f(p.z)),
    }
}

#[test]
fn test_marching_cubes_fresh_labels() {
    let faces = run_marching_cubes(
        6,
        6,
        6,
        (-2.0, -2.0, -2.0),
        (2.0, 2.0, 2.0),
        |x, y, z| x * x + y * y + z * z - 1.0,
        0.0,
    );
    assert!(!faces.is_empty());
    for (i, face) in faces.iter().enumerate() {
        assert_eq!(face.a.index, 3 * i as i64);
        assert_eq!(face.b.index, 3 * i as i64 + 1);
        assert_eq!(face.c.index, 3 * i as i64 + 2);
    }
}
