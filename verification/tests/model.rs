use meshing::{
    remove_tetrahedra_with_vertices_from_super_tetrahedron,
    remove_triangles_with_vertices_from_super_triangle, tetrahedron_contains_vertex_from_super_tetrahedron,
    triangle_contains_vertex_from_super_triangle,
};
use meshing::{Coord, Edge, Face, Point2D, Point3D, Tetrahedron, Triangle};

fn c(v: f64) -> Coord {
    Coord { bits: v.to_bits() }
}

fn p2(index: i64, x: f64, y: f64) -> Point2D {
    Point2D {
        index,
        x: c(x),
        y: c(y),
    }
}

fn p3(index: i64, x: f64, y: f64, z: f64) -> Point3D {
    Point3D {
        index,
        x: c(x),
        y: c(y),
        z: c(z),
    }
}

#[test]
fn test_edge_reverse_and_undirected_equality() {
    let e = Edge {
        start: p2(0, 0.0, 0.0),
        end: p2(1, 1.0, 0.0),
    };
    let r = e.reverse();
    assert_eq!(r.start, e.end);
    assert_eq!(r.end, e.start);
    assert!(e.equals(&r));
    let other = Edge {
        start: p2(0, 0.0, 0.0),
        end: p2(2, 0.0, 1.0),
    };
    assert!(!e.equals(&other));
}

#[test]
fn test_face_equality_ignores_order() {
    let a = p3(0, 0.0, 0.0, 0.0);
    let b = p3(1, 1.0, 0.0, 0.0);
    let d = p3(2, 0.0, 1.0, 0.0);
    let f1 = Face { a, b, c: d };
    let f2 = Face { a: d, b: a, c: b };
    assert!(f1.equals(&f2));
    let f3 = Face { a, b, c: p3(9, 5.0, 5.0, 5.0) };
    assert!(!f1.equals(&f3));
}

#[test]
fn test_triangle_vertices_and_edges() {
    let t = Triangle {
        a: p2(0, 0.0, 0.0),
        b: p2(1, 1.0, 0.0),
        c: p2(2, 0.0, 1.0),
    };
    let vs = t.vertices();
    assert_eq!(vs[0], t.a);
    assert_eq!(vs[1], t.b);
    assert_eq!(vs[2], t.c);
    let es = t.edges();
    assert_eq!(es[0].start, t.a);
    assert_eq!(es[0].end, t.b);
    assert_eq!(es[1].start, t.b);
    assert_eq!(es[1].end, t.c);
    assert_eq!(es[2].start, t.c);
    assert_eq!(es[2].end, t.a);
}

#[test]
fn test_tetrahedron_faces_and_contains_face() {
    let t = Tetrahedron {
        a: p3(0, 0.0, 0.0, 0.0),
        b: p3(1, 1.0, 0.0, 0.0),
        c: p3(2, 0.0, 1.0, 0.0),
        d: p3(3, 0.0, 0.0, 1.0),
    };
    let fs = t.faces();
    assert_eq!(fs.len(), 4);
    for f in &fs {
        assert!(t.contains_face(f));
    }
    let outside = Face {
        a: t.a,
        b: t.b,
        c: p3(9, 5.0, 5.0, 5.0),
    };
    assert!(!t.contains_face(&outside));
}

#[test]
fn test_tetrahedron_equality_ignores_order() {
    let t1 = Tetrahedron {
        a: p3(0, 0.0, 0.0, 0.0),
        b: p3(1, 1.0, 0.0, 0.0),
        c: p3(2, 0.0, 1.0, 0.0),
        d: p3(3, 0.0, 0.0, 1.0),
    };
    let t2 = Tetrahedron {
        a: t1.d,
        b: t1.c,
        c: t1.b,
        d: t1.a,
    };
    assert!(t1.equals(&t2));
}

#[test]
fn test_triangle_contains_vertex_from_super_triangle() {
    let super_triangle = Triangle {
        a: p2(-1, -10.0, -10.0),
        b: p2(-2, 10.0, -10.0),
        c: p2(-3, 0.0, 10.0),
    };
    let touching = Triangle {
        a: p2(0, 0.0, 0.0),
        b: p2(1, 1.0, 0.0),
        c: super_triangle.b,
    };
    let clear = Triangle {
        a: p2(0, 0.0, 0.0),
        b: p2(1, 1.0, 0.0),
        c: p2(2, 0.0, 1.0),
    };
    assert!(triangle_contains_vertex_from_super_triangle(
        &touching,
        &super_triangle
    ));
    assert!(!triangle_contains_vertex_from_super_triangle(
        &clear,
        &super_triangle
    ));
}

#[test]
fn test_remove_triangles_with_vertices_from_super_triangle() {
    let super_triangle = Triangle {
        a: p2(-1, -10.0, -10.0),
        b: p2(-2, 10.0, -10.0),
        c: p2(-3, 0.0, 10.0),
    };
    let touching = Triangle {
        a: p2(0, 0.0, 0.0),
        b: super_triangle.a,
        c: p2(1, 1.0, 0.0),
    };
    let clear = Triangle {
        a: p2(0, 0.0, 0.0),
        b: p2(1, 1.0, 0.0),
        c: p2(2, 0.0, 1.0),
    };
    let kept = remove_triangles_with_vertices_from_super_triangle(
        &vec![touching, clear, touching],
        &super_triangle,
    );
    assert_eq!(kept.len(), 1);
    assert!(kept[0].equals(&clear));
}

#[test]
fn test_remove_tetrahedra_with_vertices_from_super_tetrahedron() {
    let super_tetrahedron = Tetrahedron {
        a: p3(-1, -10.0, -10.0, -10.0),
        b: p3(-2, 10.0, -10.0, -10.0),
        c: p3(-3, 0.0, 10.0, -10.0),
        d: p3(-4, 0.0, 0.0, 10.0),
    };
    let touching = Tetrahedron {
        a: p3(0, 0.0, 0.0, 0.0),
        b: p3(1, 1.0, 0.0, 0.0),
        c: p3(2, 0.0, 1.0, 0.0),
        d: super_tetrahedron.d,
    };
    let clear = Tetrahedron {
        a: p3(0, 0.0, 0.0, 0.0),
        b: p3(1, 1.0, 0.0, 0.0),
        c: p3(2, 0.0, 1.0, 0.0),
        d: p3(3, 0.0, 0.0, 1.0),
    };
    assert!(tetrahedron_contains_vertex_from_super_tetrahedron(
        &touching,
        &super_tetrahedron
    ));
    let kept = remove_tetrahedra_with_vertices_from_super_tetrahedron(
        &vec![touching, clear],
        &super_tetrahedron,
    );
    assert_eq!(kept.len(), 1);
    assert!(kept[0].equals(&clear));
}
