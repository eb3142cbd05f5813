use meshing::advancing_front::FrontChoice;
use meshing::pipeline::{
    extract_unique_points, octree_refined, refine_tetrahedra, surface_to_volume, voxel_refined,
};
use meshing::{Coord, Face, Point3D, Tetrahedron};

fn c(v: f64) -> Coord {
    Coord { bits: v.to_bits() }
}

fn f(c: Coord) -> f64 {
    f64::from_bits(c.bits)
}

fn p3(index: i64, x: f64, y: f64, z: f64) -> Point3D {
    Point3D {
        index,
        x: c(x),
        y: c(y),
        z: c(z),
    }
}

fn circumsphere(t: &Tetrahedron) -> (f64, f64, f64, f64) {
    let (ax, ay, az) = (f(t.a.x), f(t.a.y), f(t.a.z));
    let bx = f(t.b.x) - ax;
    let by = f(t.b.y) - ay;
    let bz = f(t.b.z) - az;
    let cx = f(t.c.x) - ax;
    let cy = f(t.c.y) - ay;
    let cz = f(t.c.z) - az;
    let dx = f(t.d.x) - ax;
    let dy = f(t.d.y) - ay;
    let dz = f(t.d.z) - az;
    let b_sq = bx * bx + by * by + bz * bz;
    let c_sq = cx * cx + cy * cy + cz * cz;
    let d_sq = dx * dx + dy * dy + dz * dz;
    let det = bx * (cy * dz - cz * dy) - by * (cx * dz - cz * dx) + bz * (cx * dy - cy * dx);
    let inv_det = 1.0 / (2.0 * det);
    let ux = (b_sq * (cy * dz - cz * dy) - c_sq * (by * dz - bz * dy) + d_sq * (by * cz - bz * cy))
        * inv_det;
    let uy = -(b_sq * (cx * dz - cz * dx) - c_sq * (bx * dz - bz * dx) + d_sq * (bx * cz - bz * cx))
        * inv_det;
    let uz = (b_sq * (cx * dy - cy * dx) - c_sq * (bx * dy - by * dx) + d_sq * (bx * cy - by * cx))
        * inv_det;
    let (px, py, pz) = (ux + ax, uy + ay, uz + az);
    let radius = ((px - ax) * (px - ax) + (py - ay) * (py - ay) + (pz - az) * (pz - az)).sqrt();
    (px, py, pz, radius)
}

fn in_circumsphere(t: Tetrahedron, p: Point3D) -> bool {
    let (ux, uy, uz, r) = circumsphere(&t);
    let dx = f(p.x) - ux;
    let dy = f(p.y) - uy;
    let dz = f(p.z) - uz;
    dx * dx + dy * dy + dz * dz <= r * r
}

fn make_super(points: &Vec<Point3D>) -> Tetrahedron {
    let mut min_x = f64::MAX;
    let mut min_y = f64::MAX;
    let mut min_z = f64::MAX;
    let mut max_x = f64::MIN;
    let mut max_y = f64::MIN;
    let mut max_z = f64::MIN;
    for p in points {
        min_x = min_x.min(f(p.x));
        min_y = min_y.min(f(p.y));
        min_z = min_z.min(f(p.z));
        max_x = max_x.max(f(p.x));
        max_y = max_y.max(f(p.y));
        max_z = max_z.max(f(p.z));
    }
    let mid_x = (min_x + max_x) / 2.0;
    let mid_y = (min_y + max_y) / 2.0;
    let mid_z = (min_z + max_z) / 2.0;
    let d = (max_x - min_x).max(max_y - min_y).max(max_z - min_z);
    let margin = d * 100.0 + 100.0;
    let base = i64::MIN;
    Tetrahedron {
        a: p3(base, mid_x - margin, mid_y - margin, mid_z - margin),
        b: p3(base + 1, mid_x + margin, mid_y - margin, mid_z - margin),
        c: p3(base + 2, mid_x, mid_y + margin, mid_z - margin),
        d: p3(base + 3, mid_x, mid_y, mid_z + margin),
    }
}

fn dist(a: &Point3D, b: &Point3D) -> f64 {
    let dx = f(a.x) - f(b.x);
    let dy = f(a.y) - f(b.y);
    let dz = f(a.z) - f(b.z);
    (dx * dx + dy * dy + dz * dz).sqrt()
}

fn radius_edge_ratio(t: &Tetrahedron) -> f64 {
    let (_, _, _, r) = circumsphere(t);
    let v = [t.a, t.b, t.c, t.d];
    let mut min_len = f64::MAX;
    for i in 0..4 {
        for j in (i + 1)..4 {
            let d = dist(&v[i], &v[j]);
            if d < min_len {
                min_len = d;
            }
        }
    }
    r / min_len
}

fn make_pick_split(max_ratio: f64) -> impl Fn(&Vec<Tetrahedron>) -> Option<(Coord, Coord, Coord)> {
    move |mesh: &Vec<Tetrahedron>| {
        let mut worst: Option<&Tetrahedron> = None;
        let mut worst_ratio = f64::MIN;
        for t in mesh.iter() {
            let r = radius_edge_ratio(t);
            // on a tie (or an incomparable ratio) the later tetrahedron wins
            let keep_new = worst.is_none()
                || !matches!(r.partial_cmp(&worst_ratio), Some(std::cmp::Ordering::Less));
            if keep_new {
                worst_ratio = r;
                worst = Some(t);
            }
        }
        let worst = worst?;
        if radius_edge_ratio(worst) <= max_ratio {
            return None;
        }
        let (ux, uy, uz, _) = circumsphere(worst);
        Some((c(ux), c(uy), c(uz)))
    }
}

fn pick_apex(face: Face, all_points: &Vec<Point3D>) -> FrontChoice {
    let ux = f(face.b.x) - f(face.a.x);
    let uy = f(face.b.y) - f(face.a.y);
    let uz = f(face.b.z) - f(face.a.z);
    let vx = f(face.c.x) - f(face.a.x);
    let vy = f(face.c.y) - f(face.a.y);
    let vz = f(face.c.z) - f(face.a.z);
    let mut nx = uy * vz - uz * vy;
    let mut ny = uz * vx - ux * vz;
    let mut nz = ux * vy - uy * vx;
    let len = (nx * nx + ny * ny + nz * nz).sqrt();
    if len < 1e-15 {
        nx = 0.0;
        ny = 0.0;
        nz = 0.0;
    } else {
        nx /= len;
        ny /= len;
        nz /= len;
    }
    let cx = (f(face.a.x) + f(face.b.x) + f(face.c.x)) / 3.0;
    let cy = (f(face.a.y) + f(face.b.y) + f(face.c.y)) / 3.0;
    let cz = (f(face.a.z) + f(face.b.z) + f(face.c.z)) / 3.0;
    let verts = [face.a, face.b, face.c];
    let mut best: Option<Point3D> = None;
    let mut best_dist = f64::MAX;
    for &p in all_points.iter() {
        if verts.contains(&p) {
            continue;
        }
        let dx = f(p.x) - cx;
        let dy = f(p.y) - cy;
        let dz = f(p.z) - cz;
        let side = nx * dx + ny * dy + nz * dz;
        if side > 1e-10 {
            let d2 = dx * dx + dy * dy + dz * dz;
            if d2 < best_dist {
                best_dist = d2;
                best = Some(p);
            }
        }
    }
    if best.is_none() {
        for &p in all_points.iter() {
            if verts.contains(&p) {
                continue;
            }
            let dx = f(p.x) - cx;
            let dy = f(p.y) - cy;
            let dz = f(p.z) - cz;
            let side = nx * dx + ny * dy + nz * dz;
            if side < -1e-10 {
                let d2 = dx * dx + dy * dy + dz * dz;
                if d2 < best_dist {
                    best_dist = d2;
                    best = Some(p);
                }
            }
        }
    }
    match best {
        Some(p) => FrontChoice::Existing(p),
        None => {
            let e = dist(&face.a, &face.b)
                .min(dist(&face.b, &face.c))
                .min(dist(&face.a, &face.c));
            let ideal = e * 0.8;
            FrontChoice::Fresh(c(cx + nx * ideal), c(cy + ny * ideal), c(cz + nz * ideal))
        }
    }
}

fn sphere_below(
    nx: usize,
    ny: usize,
    nz: usize,
    min: (f64, f64, f64),
    max: (f64, f64, f64),
    field: impl Fn(f64, f64, f64) -> f64,
    iso: f64,
) -> Vec<bool> {
    let dx = (max.0 - min.0) / nx as f64;
    let dy = (max.1 - min.1) / ny as f64;
    let dz = (max.2 - min.2) / nz as f64;
    let mut below = Vec::new();
    for g in 0..((nx + 1) * (ny + 1) * (nz + 1)) {
        let ix = g / ((ny + 1) * (nz + 1));
        let rest = g % ((ny + 1) * (nz + 1));
        let iy = rest / (nz + 1);
        let iz = rest % (nz + 1);
        let x = min.0 + ix as f64 * dx;
        let y = min.1 + iy as f64 * dy;
        let z = min.2 + iz as f64 * dz;
        below.push(field(x, y, z) < iso);
    }
    below
}

#[test]
fn test_surface_to_volume_sphere() {
    let nx = 8;
    let ny = 8;
    let nz = 8;
    let min = (-2.0, -2.0, -2.0);
    let max = (2.0, 2.0, 2.0);
    let field = |x: f64, y: f64, z: f64| x * x + y * y + z * z - 1.0;
    let below = sphere_below(nx, ny, nz, min, max, field, 0.0);
    let dx = (max.0 - min.0) / nx as f64;
    let dy = (max.1 - min.1) / ny as f64;
    let dz = (max.2 - min.2) / nz as f64;
    let interp = move |ga: u64, gb: u64| {
        let decode = |g: usize| {
            let ix = g / ((ny + 1) * (nz + 1));
            let rest = g % ((ny + 1) * (nz + 1));
            (
                min.0 + ix as f64 * dx,
                min.1 + (rest / (nz + 1)) as f64 * dy,
                min.2 + (rest % (nz + 1)) as f64 * dz,
            )
        };
        let (xa, ya, za) = decode(ga as usize);
        let (xb, yb, zb) = decode(gb as usize);
        let va = field(xa, ya, za);
        let vb = field(xb, yb, zb);
        let t = if (vb - va).abs() < 1e-300 {
            0.5
        } else {
            (0.0 - va) / (vb - va)
        };
        (
            c(xa + t * (xb - xa)),
            c(ya + t * (yb - ya)),
            c(za + t * (zb - za)),
        )
    };
    let result = surface_to_volume(nx, ny, nz, &below, interp, pick_apex);
    assert!(!result.is_empty());
}

#[test]
fn test_surface_to_volume_empty_field() {
    let nx = 4;
    let ny = 4;
    let nz = 4;
    let below = sphere_below(
        nx,
        ny,
        nz,
        (-1.0, -1.0, -1.0),
        (1.0, 1.0, 1.0),
        |_, _, _| 10.0,
        0.0,
    );
    let interp = |_: u64, _: u64| (c(0.0), c(0.0), c(0.0));
    let result = surface_to_volume(nx, ny, nz, &below, interp, pick_apex);
    assert!(result.is_empty());
}

#[test]
fn test_octree_refined() {
    let is_inside = |_: Point3D| true;
    let mid = |a: Coord, b: Coord| c((f(a) + f(b)) / 2.0);
    let result = octree_refined(
        p3(0, -1.0, -1.0, -1.0),
        p3(0, 1.0, 1.0, 1.0),
        1,
        is_inside,
        mid,
        make_super,
        in_circumsphere,
        make_pick_split(2.0),
    );
    assert!(!result.is_empty());
}

#[test]
fn test_octree_refined_empty_domain() {
    let is_inside = |_: Point3D| false;
    let mid = |a: Coord, b: Coord| c((f(a) + f(b)) / 2.0);
    let result = octree_refined(
        p3(0, 0.0, 0.0, 0.0),
        p3(0, 1.0, 1.0, 1.0),
        2,
        is_inside,
        mid,
        make_super,
        in_circumsphere,
        make_pick_split(2.0),
    );
    assert!(result.is_empty());
}

#[test]
fn test_voxel_refined_single_cell() {
    let min = (0.0, 0.0, 0.0);
    let max = (1.0, 1.0, 1.0);
    let (nx, ny, nz) = (1usize, 1usize, 1usize);
    let dx = (max.0 - min.0) / nx as f64;
    let dy = (max.1 - min.1) / ny as f64;
    let dz = (max.2 - min.2) / nz as f64;
    let cell_inside = |_: usize, _: usize, _: usize| true;
    let corner = move |ix: usize, iy: usize, iz: usize| {
        (
            c(min.0 + ix as f64 * dx),
            c(min.1 + iy as f64 * dy),
            c(min.2 + iz as f64 * dz),
        )
    };
    let result = voxel_refined(
        nx,
        ny,
        nz,
        cell_inside,
        corner,
        make_super,
        in_circumsphere,
        make_pick_split(10.0),
    );
    assert!(!result.is_empty());
}

#[test]
fn test_refine_tetrahedra_empty() {
    let result = refine_tetrahedra(
        &vec![],
        make_super,
        in_circumsphere,
        make_pick_split(2.0),
    );
    assert!(result.is_empty());
}

#[test]
fn test_refine_tetrahedra_single() {
    let tet = Tetrahedron {
        a: p3(0, 0.0, 0.0, 0.0),
        b: p3(1, 1.0, 0.0, 0.0),
        c: p3(2, 0.5, 1.0, 0.0),
        d: p3(3, 0.5, 0.5, 1.0),
    };
    let result = refine_tetrahedra(
        &vec![tet],
        make_super,
        in_circumsphere,
        make_pick_split(2.0),
    );
    assert!(!result.is_empty());
}

#[test]
fn test_extract_unique_points() {
    let tet = Tetrahedron {
        a: p3(0, 0.0, 0.0, 0.0),
        b: p3(1, 1.0, 0.0, 0.0),
        c: p3(2, 0.0, 1.0, 0.0),
        d: p3(3, 0.0, 0.0, 1.0),
    };
    let points = extract_unique_points(&vec![tet]);
    assert_eq!(points.len(), 4);
}
