use meshing::export::{
    base64_encode, build_glb, extract_surface_faces, faces_to_obj, tetrahedra_to_vtk,
    triangles_to_obj, triangles_to_stl,
};
use meshing::export::{TextFace, TextPoint2, TextPoint3, TextTetrahedron, TextTriangle};
use meshing::{Coord, Point3D, Tetrahedron};

fn c(v: f64) -> Coord {
    Coord { bits: v.to_bits() }
}

fn p3(index: i64, x: f64, y: f64, z: f64) -> Point3D {
    Point3D {
        index,
        x: c(x),
        y: c(y),
        z: c(z),
    }
}

fn tp2(index: i64, x: f64, y: f64) -> TextPoint2 {
    TextPoint2 {
        index,
        x: format!("{}", x),
        y: format!("{}", y),
    }
}

fn tp3(index: i64, x: f64, y: f64, z: f64) -> TextPoint3 {
    TextPoint3 {
        index,
        x: format!("{}", x),
        y: format!("{}", y),
        z: format!("{}", z),
    }
}

fn single_tet() -> Tetrahedron {
    Tetrahedron {
        a: p3(0, 0.0, 0.0, 0.0),
        b: p3(1, 1.0, 0.0, 0.0),
        c: p3(2, 0.0, 1.0, 0.0),
        d: p3(3, 0.0, 0.0, 1.0),
    }
}

// ---------------------------------------------------------------- base64

#[test]
fn test_base64_encode() {
    assert_eq!(base64_encode(&b"".to_vec()), "");
    assert_eq!(base64_encode(&b"f".to_vec()), "Zg==");
    assert_eq!(base64_encode(&b"fo".to_vec()), "Zm8=");
    assert_eq!(base64_encode(&b"foo".to_vec()), "Zm9v");
    assert_eq!(base64_encode(&b"foobar".to_vec()), "Zm9vYmFy");
}

// ---------------------------------------------------------------- binary glTF container

#[test]
fn gltf_test_glb_magic() {
    let glb = build_glb("{\"scenes\":[]}", &vec![1, 2, 3, 4]);
    assert_eq!(&glb[0..4], b"glTF");
}

#[test]
fn gltf_test_glb_version() {
    let glb = build_glb("{\"scenes\":[]}", &vec![1, 2, 3, 4]);
    let version = u32::from_le_bytes([glb[4], glb[5], glb[6], glb[7]]);
    assert_eq!(version, 2);
}

#[test]
fn test_glb_total_length() {
    let glb = build_glb("{\"scenes\":[]}", &vec![1, 2, 3, 4, 5]);
    let total = u32::from_le_bytes([glb[8], glb[9], glb[10], glb[11]]);
    assert_eq!(total as usize, glb.len());
}

#[test]
fn test_glb_json_chunk_type() {
    let glb = build_glb("{\"scenes\":[]}", &vec![1, 2, 3, 4]);
    let chunk_type = u32::from_le_bytes([glb[16], glb[17], glb[18], glb[19]]);
    assert_eq!(chunk_type, 0x4E4F534A); // "JSON"
}

#[test]
fn gltf_test_glb_alignment() {
    let glb = build_glb("{\"a\":1}", &vec![9, 9, 9]);
    assert_eq!(glb.len() % 4, 0);
}

#[test]
fn test_glb_json_padded_with_spaces() {
    let glb = build_glb("{\"a\":1}", &vec![]);
    let json_len = u32::from_le_bytes([glb[12], glb[13], glb[14], glb[15]]) as usize;
    assert_eq!(json_len % 4, 0);
    let json = std::str::from_utf8(&glb[20..20 + json_len]).unwrap();
    assert_eq!(json.trim_end(), "{\"a\":1}");
}

// ---------------------------------------------------------------- surface extraction

#[test]
fn test_extract_surface_faces_single_tet() {
    let surface = extract_surface_faces(&vec![single_tet()]);
    assert_eq!(surface.len(), 4);
}

#[test]
fn test_extract_surface_shared_face_excluded() {
    let p0 = p3(0, 0.0, 0.0, 0.0);
    let p1 = p3(1, 1.0, 0.0, 0.0);
    let p2v = p3(2, 0.0, 1.0, 0.0);
    let p3v = p3(3, 0.0, 0.0, 1.0);
    let p4 = p3(4, 0.0, 0.0, -1.0);
    let tet1 = Tetrahedron { a: p0, b: p1, c: p2v, d: p3v };
    let tet2 = Tetrahedron { a: p0, b: p1, c: p2v, d: p4 };
    let surface = extract_surface_faces(&vec![tet1, tet2]);
    assert_eq!(surface.len(), 6);
}

// ---------------------------------------------------------------- OBJ

#[test]
fn test_triangles_to_obj_empty() {
    let result = triangles_to_obj(&vec![]);
    assert_eq!(result, "");
}

#[test]
fn test_triangles_to_obj_single_triangle() {
    let triangles = vec![TextTriangle {
        a: tp2(0, 0.0, 0.0),
        b: tp2(1, 1.0, 0.0),
        c: tp2(2, 0.0, 1.0),
    }];
    let result = triangles_to_obj(&triangles);
    assert!(result.contains("v 0 0 0"));
    assert!(result.contains("v 1 0 0"));
    assert!(result.contains("v 0 1 0"));
    assert!(result.contains("f 1 2 3"));
}

#[test]
fn test_triangles_to_obj_shared_vertices() {
    let triangles = vec![
        TextTriangle {
            a: tp2(0, 0.0, 0.0),
            b: tp2(1, 1.0, 0.0),
            c: tp2(2, 0.0, 1.0),
        },
        TextTriangle {
            a: tp2(1, 1.0, 0.0),
            b: tp2(3, 1.0, 1.0),
            c: tp2(2, 0.0, 1.0),
        },
    ];
    let result = triangles_to_obj(&triangles);
    let vertex_count =
        result.matches("\nv ").count() + if result.starts_with("v ") { 1 } else { 0 };
    assert_eq!(vertex_count, 4);
    let face_count = result.matches("f ").count();
    assert_eq!(face_count, 2);
}

#[test]
fn test_faces_to_obj_3d_vertices() {
    let face = TextFace {
        a: tp3(0, 1.0, 2.0, 3.0),
        b: tp3(1, 4.0, 5.0, 6.0),
        c: tp3(2, 7.0, 8.0, 9.0),
    };
    let result = faces_to_obj(&vec![face]);
    assert!(result.contains("v 1 2 3"));
    assert!(result.contains("v 4 5 6"));
    assert!(result.contains("v 7 8 9"));
    assert!(result.contains("f 1 2 3"));
}

#[test]
fn test_obj_face_indices_one_based() {
    let face = TextFace {
        a: tp3(5, 0.0, 0.0, 0.0),
        b: tp3(10, 1.0, 0.0, 0.0),
        c: tp3(15, 0.0, 1.0, 0.0),
    };
    let obj = faces_to_obj(&vec![face]);
    assert!(obj.contains("f 1 2 3"));
}

#[test]
fn test_obj_vertex_precision() {
    let face = TextFace {
        a: tp3(0, 0.123456789, -0.987654321, 42.0),
        b: tp3(1, 1.0, 0.0, 0.0),
        c: tp3(2, 0.0, 1.0, 0.0),
    };
    let obj = faces_to_obj(&vec![face]);
    assert!(obj.contains("0.123456789"));
    assert!(obj.contains("-0.987654321"));
    assert!(obj.contains("42"));
}

// ---------------------------------------------------------------- STL

#[test]
fn test_triangles_to_stl_empty() {
    let result = triangles_to_stl(&vec![], "test");
    assert_eq!(result, "solid test\nendsolid test\n");
}

#[test]
fn test_triangles_to_stl_single_triangle() {
    let triangles = vec![TextTriangle {
        a: tp2(0, 0.0, 0.0),
        b: tp2(1, 1.0, 0.0),
        c: tp2(2, 0.0, 1.0),
    }];
    let result = triangles_to_stl(&triangles, "mesh");
    assert!(result.starts_with("solid mesh\n"));
    assert!(result.ends_with("endsolid mesh\n"));
    assert!(result.contains("facet normal 0 0 1"));
    assert!(result.contains("vertex 0 0 0"));
    assert!(result.contains("vertex 1 0 0"));
    assert!(result.contains("vertex 0 1 0"));
}

#[test]
fn test_triangles_to_stl_multiple_triangles() {
    let triangles = vec![
        TextTriangle {
            a: tp2(0, 0.0, 0.0),
            b: tp2(1, 1.0, 0.0),
            c: tp2(2, 0.0, 1.0),
        },
        TextTriangle {
            a: tp2(1, 1.0, 0.0),
            b: tp2(3, 1.0, 1.0),
            c: tp2(2, 0.0, 1.0),
        },
    ];
    let result = triangles_to_stl(&triangles, "quad");
    let facet_count = result.matches("facet normal").count();
    assert_eq!(facet_count, 2);
}

// ---------------------------------------------------------------- VTK

fn text_tet(
    a: (i64, f64, f64, f64),
    b: (i64, f64, f64, f64),
    c4: (i64, f64, f64, f64),
    d: (i64, f64, f64, f64),
) -> TextTetrahedron {
    TextTetrahedron {
        a: tp3(a.0, a.1, a.2, a.3),
        b: tp3(b.0, b.1, b.2, b.3),
        c: tp3(c4.0, c4.1, c4.2, c4.3),
        d: tp3(d.0, d.1, d.2, d.3),
    }
}

fn single_text_tet() -> TextTetrahedron {
    text_tet(
        (0, 0.0, 0.0, 0.0),
        (1, 1.0, 0.0, 0.0),
        (2, 0.0, 1.0, 0.0),
        (3, 0.0, 0.0, 1.0),
    )
}

#[test]
fn test_vtk_header() {
    let result = tetrahedra_to_vtk(&vec![single_text_tet()], "test mesh");
    assert!(result.starts_with("# vtk DataFile Version 3.0\n"));
    assert!(result.contains("test mesh"));
    assert!(result.contains("ASCII"));
    assert!(result.contains("DATASET UNSTRUCTURED_GRID"));
}

#[test]
fn test_vtk_single_tet() {
    let result = tetrahedra_to_vtk(&vec![single_text_tet()], "single");
    assert!(result.contains("POINTS 4 double"));
    assert!(result.contains("CELLS 1 5"));
    assert!(result.contains("4 0 1 2 3"));
    assert!(result.contains("CELL_TYPES 1"));
    assert!(result.contains("10"));
}

#[test]
fn test_vtk_empty() {
    let result = tetrahedra_to_vtk(&vec![], "empty");
    assert!(result.contains("POINTS 0 double"));
    assert!(result.contains("CELLS 0 0"));
    assert!(result.contains("CELL_TYPES 0"));
}

#[test]
fn test_vtk_shared_vertices() {
    let tet1 = text_tet(
        (0, 0.0, 0.0, 0.0),
        (1, 1.0, 0.0, 0.0),
        (2, 0.0, 1.0, 0.0),
        (3, 0.0, 0.0, 1.0),
    );
    let tet2 = text_tet(
        (1, 1.0, 0.0, 0.0),
        (2, 0.0, 1.0, 0.0),
        (3, 0.0, 0.0, 1.0),
        (4, 1.0, 1.0, 1.0),
    );
    let result = tetrahedra_to_vtk(&vec![tet1, tet2], "shared");
    assert!(result.contains("POINTS 5 double"));
    assert!(result.contains("CELLS 2 10"));
    assert!(result.contains("CELL_TYPES 2"));
}

#[test]
fn test_vtk_coordinates() {
    let tet = text_tet(
        (0, 1.5, 2.5, 3.5),
        (1, 4.0, 5.0, 6.0),
        (2, 7.0, 8.0, 9.0),
        (3, 0.0, 0.0, 0.0),
    );
    let result = tetrahedra_to_vtk(&vec![tet], "coords");
    assert!(result.contains("1.5 2.5 3.5"));
    assert!(result.contains("4 5 6"));
    assert!(result.contains("7 8 9"));
    assert!(result.contains("0 0 0"));
}
