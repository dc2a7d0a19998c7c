use mini_mesh_parser::surface::{FaceBuilder, FaceMode};
use mini_mesh_parser::{detect_format, MeshFormat, SurfaceIndices};

#[test]
fn polygon_strides_become_offsets() {
    match SurfaceIndices::from_polygon_strides(vec![0, 1, 2, 0, 1, 2, 3], vec![3, 4]) {
        SurfaceIndices::Polygons(i, o) => {
            assert_eq!(i, vec![0, 1, 2, 0, 1, 2, 3]);
            assert_eq!(o, vec![0, 3, 7]);
        }
        _ => panic!("expected polygons"),
    }
    match SurfaceIndices::from_polygon_strides_u32(vec![5, 6, 7, 8, 9], vec![5]) {
        SurfaceIndices::Polygons(_, o) => assert_eq!(o, vec![0, 5]),
        _ => panic!("expected polygons"),
    }
    match SurfaceIndices::from_polygon_strides(vec![], vec![]) {
        SurfaceIndices::Polygons(i, o) => {
            assert!(i.is_empty());
            assert_eq!(o, vec![0]);
        }
        _ => panic!("expected polygons"),
    }
}

#[test]
fn triangles_and_quads_are_kept() {
    assert!(matches!(SurfaceIndices::from_triangles(vec![[0, 1, 2]]), SurfaceIndices::Triangles(t) if t == vec![[0, 1, 2]]));
    assert!(matches!(SurfaceIndices::from_quads(vec![[0, 1, 2, 3]]), SurfaceIndices::Quads(q) if q == vec![[0, 1, 2, 3]]));
}

#[test]
fn builder_switches_to_polygons_and_keeps_earlier_faces() {
    let mut b = FaceBuilder::new();
    b.add_face(&vec![0, 1, 2, 3]);
    b.add_face(&vec![4, 5, 6, 7]);
    assert!(b.mode == FaceMode::Quad);
    b.add_face(&vec![0, 4, 8]);
    assert!(b.mode == FaceMode::Polygon);
    assert_eq!(b.strides, vec![4, 4, 3]);
    match b.finish() {
        SurfaceIndices::Polygons(i, o) => {
            assert_eq!(i, vec![0, 1, 2, 3, 4, 5, 6, 7, 0, 4, 8]);
            assert_eq!(o, vec![0, 4, 8, 11]);
        }
        _ => panic!("expected polygons"),
    }
}

#[test]
fn builder_short_face_keeps_mode() {
    let mut b = FaceBuilder::new();
    b.add_face(&vec![0, 1, 2]);
    b.add_face(&vec![3, 4]);
    assert!(b.mode == FaceMode::Triangle);
    assert_eq!(b.indices, vec![0, 1, 2, 3, 4]);
    assert!(matches!(b.finish(), SurfaceIndices::Triangles(t) if t == vec![[0, 1, 2]]));
}

#[test]
fn format_from_hint_then_magic() {
    assert!(detect_format(Some(b"obj"), b"OFF\n") == Some(MeshFormat::Obj));
    assert!(detect_format(Some(b"stl"), b"") == Some(MeshFormat::Stl));
    assert!(detect_format(Some(b"txt"), b"OFF\n3 1 0\n") == Some(MeshFormat::Off));
    assert!(detect_format(None, b"ply\n") == Some(MeshFormat::Ply));
    assert!(detect_format(None, b"OF") == None);
    assert!(detect_format(Some(b"OBJ"), b"v 0 0 0\n") == None);
}

#[test]
fn obj_face_is_read_and_recorded() {
    let mut faces = FaceBuilder { mode: FaceMode::Triangle, indices: vec![0, 1, 2], strides: Vec::new() };
    let line = b"1/1/1 2/2/2 3/3/3 4/4/4\n";
    assert_eq!(mini_mesh_parser::obj::parse_face_into(line, 0, line.len(), 4, &mut faces), Some(23));
    assert!(faces.mode == FaceMode::Polygon);
    assert_eq!(faces.indices, vec![0, 1, 2, 0, 1, 2, 3]);
    assert_eq!(faces.strides, vec![3, 4]);
}

#[test]
fn obj_face_refused_leaves_faces_alone() {
    let mut faces = FaceBuilder { mode: FaceMode::Undetermined, indices: Vec::new(), strides: Vec::new() };
    let line = b"1 x\n";
    assert_eq!(mini_mesh_parser::obj::parse_face_into(line, 0, line.len(), 4, &mut faces), None);
    assert!(faces.mode == FaceMode::Undetermined);
    assert!(faces.indices.is_empty());
}
