use mini_mesh_parser::ply_header::{parse_header, Format, HeadingInfos};
use mini_mesh_parser::{load_mesh_bytes, Coord, RawMesh, SurfaceIndices};

fn text_of<'a>(data: &'a [u8], c: &Coord) -> &'a [u8] {
    match c {
        Coord::Text(a, b) => &data[*a..*b],
        _ => panic!("not a text coordinate"),
    }
}

const TRIANGLES_OBJ: &str = "# a tetrahedron\n\
mtllib none.mtl\n\
v 0.0 0.0 0.0\n\
v 1.0 0.0 0.0\n\
v 0.0 1.0 0.0\n\
v 0.0 0.0 1.0\n\
vn 0.0 0.0 1.0\n\
vt 0.5 0.5\n\
f 1 2 3\n\
f 1/1/1 3/1/1 4/1/1\n\
f 1//1 4//1 2//1\n\
f 2 4 3\n";

const QUADS_OBJ: &str = "v 0 0 0\n\
v 1 0 0\n\
v 1 1 0\n\
v 0 1 0\n\
v 0 0 1\n\
v 1 0 1\n\
f 1 2 3 4\n\
f 1 2 6 5\n";

const POLY_OBJ: &str = "v 0 0 0\n\
v 1 0 0\n\
v 1 1 0\n\
v 0 1 0\n\
v 2 0.5 0\n\
f 1 2 3\n\
f 1 2 3 4\n\
f 1 2 5 3 4\n";

const TETRA_OFF: &str = "OFF\n\
4 4 6\n\
0.0 0.0 0.0\n\
1.0 0.0 0.0\n\
0.0 1.0 0.0\n\
0.0 0.0 1.0\n\
3 0 1 2\n\
3 0 2 3\n\
3 0 3 1\n\
3 1 3 2\n";

const CUBE_OFF: &str = "OFF\n\
8 6 12\n\
0 0 0\n\
1 0 0\n\
1 1 0\n\
0 1 0\n\
0 0 1\n\
1 0 1\n\
1 1 1\n\
0 1 1\n\
4 0 3 2 1\n\
4 4 5 6 7\n\
4 0 1 5 4\n\
4 1 2 6 5\n\
4 2 3 7 6\n\
4 3 0 4 7\n";

const TETRA_PLY: &str = "ply\n\
format ascii 1.0\n\
comment a tetrahedron\n\
element vertex 4\n\
property float x\n\
property float y\n\
property float z\n\
element face 4\n\
property list uchar int vertex_indices\n\
end_header\n\
0 0 0\n\
1 0 0\n\
0 1 0\n\
0 0 1\n\
3 0 1 2\n\
3 0 2 3\n\
3 0 3 1\n\
3 1 3 2\n";

fn cube_ply_binary() -> Vec<u8> {
    let mut d = b"ply\nformat binary_little_endian 1.0\nelement vertex 8\nproperty float x\nproperty float y\nproperty float z\nelement face 6\nproperty list uchar int vertex_indices\nend_header\n".to_vec();
    let pts: [[f32; 3]; 8] = [
        [0.0, 0.0, 0.0],
        [1.0, 0.0, 0.0],
        [1.0, 1.0, 0.0],
        [0.0, 1.0, 0.0],
        [0.0, 0.0, 1.0],
        [1.0, 0.0, 1.0],
        [1.0, 1.0, 1.0],
        [0.0, 1.0, 1.0],
    ];
    for p in pts.iter() {
        for c in p.iter() {
            d.extend_from_slice(&c.to_le_bytes());
        }
    }
    let faces: [[i32; 4]; 6] = [
        [0, 3, 2, 1],
        [4, 5, 6, 7],
        [0, 1, 5, 4],
        [1, 2, 6, 5],
        [2, 3, 7, 6],
        [3, 0, 4, 7],
    ];
    for f in faces.iter() {
        d.push(4);
        for i in f.iter() {
            d.extend_from_slice(&i.to_le_bytes());
        }
    }
    d
}

fn cube_ply_big_endian() -> Vec<u8> {
    let mut d = b"ply\nformat binary_big_endian 1.0\nelement vertex 3\nproperty double x\nproperty double y\nproperty double z\nproperty uchar red\nelement face 1\nproperty list ushort uint vertex_indices\nend_header\n".to_vec();
    let pts: [[f64; 3]; 3] = [[0.0, 0.0, 0.0], [1.0, 0.0, 0.0], [0.0, 1.0, 0.0]];
    for p in pts.iter() {
        for c in p.iter() {
            d.extend_from_slice(&c.to_be_bytes());
        }
        d.push(255);
    }
    d.extend_from_slice(&3u16.to_be_bytes());
    for i in [0u32, 1, 2].iter() {
        d.extend_from_slice(&i.to_be_bytes());
    }
    d
}

fn stl_binary(tris: &[[[f32; 3]; 3]]) -> Vec<u8> {
    let mut d = vec![0u8; 80];
    d[..6].copy_from_slice(b"binary");
    d.extend_from_slice(&(tris.len() as u32).to_le_bytes());
    for t in tris.iter() {
        for _ in 0..3 {
            d.extend_from_slice(&0f32.to_le_bytes());
        }
        for v in t.iter() {
            for c in v.iter() {
                d.extend_from_slice(&c.to_le_bytes());
            }
        }
        d.extend_from_slice(&0u16.to_le_bytes());
    }
    d
}

fn load(data: &[u8], hint: &str) -> Result<RawMesh, ()> {
    load_mesh_bytes(data, Some(hint.as_bytes()))
}

#[test]
fn test_obj() {
    for data in [TRIANGLES_OBJ.as_bytes(), QUADS_OBJ.as_bytes(), POLY_OBJ.as_bytes()] {
        assert!(matches!(load(data, "obj"), Ok(_)));
    }
}

#[test]
fn test_obj_quad() {
    for data in [QUADS_OBJ.as_bytes()] {
        assert!(matches!(load(data, "obj"), Ok(_)));
    }
}

#[test]
fn test_obj_poly() {
    for data in [POLY_OBJ.as_bytes()] {
        assert!(matches!(load(data, "obj"), Ok(_)));
    }
}

#[test]
fn test_off() {
    for data in [TETRA_OFF.as_bytes(), CUBE_OFF.as_bytes()] {
        assert!(matches!(load(data, "off"), Ok(_)));
    }
}

#[test]
fn test_stl() {
    let data = stl_binary(&[
        [[0.0, 0.0, 0.0], [1.0, 0.0, 0.0], [0.0, 1.0, 0.0]],
        [[0.0, 0.0, 0.0], [0.0, 1.0, 0.0], [0.0, 0.0, 1.0]],
    ]);
    for data in [&data[..]] {
        assert!(matches!(load(data, "stl"), Ok(_)));
    }
}

#[test]
fn test_ply() {
    let binary = cube_ply_binary();
    let big = cube_ply_big_endian();
    for data in [TETRA_PLY.as_bytes(), &binary[..], &big[..]] {
        assert!(matches!(load(data, "ply"), Ok(_)));
    }
}

#[test]
fn test_unknown() {
    for data in [TETRA_PLY.as_bytes(), TETRA_OFF.as_bytes()] {
        assert!(matches!(load(data, "txt"), Ok(_)));
    }
}

#[test]
fn obj_triangles_values() {
    let data = TRIANGLES_OBJ.as_bytes();
    let m = load(data, "obj").unwrap();
    assert_eq!(m.vertices.len(), 4);
    assert_eq!(text_of(data, &m.vertices[1][0]), b"1.0");
    assert_eq!(text_of(data, &m.vertices[3][2]), b"1.0");
    assert_eq!(text_of(data, &m.vertices[2][0]), b"0.0");
    match m.indices {
        SurfaceIndices::Triangles(t) => {
            assert_eq!(t, vec![[0, 1, 2], [0, 2, 3], [0, 3, 1], [1, 3, 2]]);
        }
        _ => panic!("expected triangles"),
    }
}

#[test]
fn obj_quads_values() {
    let m = load(QUADS_OBJ.as_bytes(), "obj").unwrap();
    assert_eq!(m.vertices.len(), 6);
    match m.indices {
        SurfaceIndices::Quads(q) => assert_eq!(q, vec![[0, 1, 2, 3], [0, 1, 5, 4]]),
        _ => panic!("expected quads"),
    }
}

#[test]
fn obj_mixed_faces_become_polygons() {
    let m = load(POLY_OBJ.as_bytes(), "obj").unwrap();
    match m.indices {
        SurfaceIndices::Polygons(i, o) => {
            assert_eq!(i, vec![0, 1, 2, 0, 1, 2, 3, 0, 1, 4, 2, 3]);
            assert_eq!(o, vec![0, 3, 7, 12]);
        }
        _ => panic!("expected polygons"),
    }
}

#[test]
fn obj_negative_indices_count_from_the_end() {
    let data = b"v 0 0 0\nv 1 0 0\nv 0 1 0\nf -3 -2 -1\n";
    let m = load(data, "obj").unwrap();
    match m.indices {
        SurfaceIndices::Triangles(t) => assert_eq!(t, vec![[0, 1, 2]]),
        _ => panic!("expected triangles"),
    }
}

#[test]
fn obj_last_line_without_newline_is_read() {
    let data = b"v 0 0 0\nv 1 0 0\nv 0 1 0\nf 1 2 3";
    let m = load(data, "obj").unwrap();
    assert_eq!(m.vertices.len(), 3);
    assert!(matches!(m.indices, SurfaceIndices::Triangles(t) if t == vec![[0, 1, 2]]));
    let m = load(b"v 0 0 0\nv 1 0 0\nv 0 1 0", "obj").unwrap();
    assert_eq!(m.vertices.len(), 3);
}

#[test]
fn obj_many_triangles_then_a_quad() {
    let data = b"v 0 0 0\nf 1 1 1\nf 1 1 1\nf 1 1 1\nf 1 1 1 1\n";
    let m = load(data, "obj").unwrap();
    match m.indices {
        SurfaceIndices::Polygons(i, o) => {
            assert_eq!(i.len(), 13);
            assert_eq!(o, vec![0, 3, 6, 9, 13]);
        }
        _ => panic!("expected polygons"),
    }
}

#[test]
fn obj_word_ends_at_a_tab() {
    let data = b"v 0 0 1\t\nv 1 0 0\nv 0 1 0\nf 1 2 3\n";
    let m = load(data, "obj").unwrap();
    assert_eq!(text_of(data, &m.vertices[0][2]), b"1");
}

#[test]
fn obj_short_vertex_line_is_an_error() {
    assert!(load(b"v 1.0\n", "obj").is_err());
}

#[test]
fn obj_empty_gives_empty_mesh() {
    let m = load(b"", "obj").unwrap();
    assert_eq!(m.vertices.len(), 0);
    assert!(matches!(m.indices, SurfaceIndices::Triangles(t) if t.is_empty()));
}

#[test]
fn off_values() {
    let data = CUBE_OFF.as_bytes();
    let m = load(data, "off").unwrap();
    assert_eq!(m.vertices.len(), 8);
    assert_eq!(text_of(data, &m.vertices[6][1]), b"1");
    match m.indices {
        SurfaceIndices::Quads(q) => {
            assert_eq!(q.len(), 6);
            assert_eq!(q[0], [0, 3, 2, 1]);
            assert_eq!(q[5], [3, 0, 4, 7]);
        }
        _ => panic!("expected quads"),
    }
}

#[test]
fn off_without_keyword_line() {
    let data = b"3 1 0\n0 0 0\n1 0 0\n0 1 0\n3 0 1 2\n";
    let m = load(data, "off").unwrap();
    assert_eq!(m.vertices.len(), 3);
    assert!(matches!(m.indices, SurfaceIndices::Triangles(t) if t == vec![[0, 1, 2]]));
}

#[test]
fn off_face_count_mismatch_is_an_error() {
    let data = b"OFF\n3 2 0\n0 0 0\n1 0 0\n0 1 0\n3 0 1 2\n";
    assert!(load(data, "off").is_err());
}

#[test]
fn off_face_of_two_vertices_is_an_error() {
    let data = b"OFF\n3 1 0\n0 0 0\n1 0 0\n0 1 0\n2 0 1\n";
    assert!(load(data, "off").is_err());
}

#[test]
fn off_empty_mesh_and_single_vertex() {
    let m = load(b"OFF\n0 0 0\n", "off").unwrap();
    assert!(m.vertices.is_empty());
    assert!(matches!(m.indices, SurfaceIndices::Triangles(t) if t.is_empty()));
    let data = b"OFF\n1 0 0\n0.5 0 0\n";
    let m = load(data, "off").unwrap();
    assert_eq!(m.vertices.len(), 1);
    assert_eq!(text_of(data, &m.vertices[0][0]), b"0.5");
}

#[test]
fn off_comment_lines_are_passed_over() {
    assert_eq!(mini_mesh_parser::off::get_line_start(b"# c\nOFF\n", 0, 8), Ok(Some(4)));
    assert_eq!(mini_mesh_parser::off::get_line_start(b"  # a\n # b\n  3 1 0\n", 0, 20), Ok(Some(13)));
    let data = b"# made by hand\nOFF\n# counts\n3 1 0\n0 0 0\n# a comment between\n1 0 0\n0 1 0\n3 0 1 2\n";
    let m = load(data, "off").unwrap();
    assert_eq!(m.vertices.len(), 3);
    assert!(matches!(m.indices, SurfaceIndices::Triangles(t) if t == vec![[0, 1, 2]]));
}

#[test]
fn off_last_line_without_newline_is_read() {
    let m = load(b"OFF\n3 1 0\n0 0 0\n1 0 0\n0 1 0\n3 0 1 2", "off").unwrap();
    assert!(matches!(m.indices, SurfaceIndices::Triangles(t) if t == vec![[0, 1, 2]]));
}

#[test]
fn stl_values() {
    let data = stl_binary(&[[[0.0, 0.5, 0.0], [1.0, 0.0, 0.0], [0.0, 1.0, 2.0]]]);
    let m = load(&data, "stl").unwrap();
    assert_eq!(m.vertices.len(), 3);
    assert!(m.vertices[0][1] == Coord::F32Bits(0.5f32.to_bits()));
    assert!(m.vertices[2][2] == Coord::F32Bits(2.0f32.to_bits()));
    assert!(matches!(m.indices, SurfaceIndices::Triangles(t) if t == vec![[0, 1, 2]]));
}

#[test]
fn stl_text_form_is_refused() {
    let mut data = stl_binary(&[[[0.0; 3]; 3]]);
    data[..5].copy_from_slice(b"solid");
    assert!(load(&data, "stl").is_err());
}

#[test]
fn stl_missing_records_are_an_error() {
    let mut data = stl_binary(&[[[0.0; 3]; 3]]);
    data[80] = 2;
    assert!(load(&data, "stl").is_err());
}

#[test]
fn ply_ascii_values() {
    let data = TETRA_PLY.as_bytes();
    let m = load(data, "ply").unwrap();
    assert_eq!(m.vertices.len(), 4);
    assert_eq!(text_of(data, &m.vertices[1][0]), b"1");
    assert_eq!(text_of(data, &m.vertices[3][2]), b"1");
    match m.indices {
        SurfaceIndices::Triangles(t) => assert_eq!(t, vec![[0, 1, 2], [0, 2, 3], [0, 3, 1], [1, 3, 2]]),
        _ => panic!("expected triangles"),
    }
}

#[test]
fn ply_binary_values() {
    let data = cube_ply_binary();
    let m = load(&data, "ply").unwrap();
    assert_eq!(m.vertices.len(), 8);
    assert!(m.vertices[6][0] == Coord::F32Bits(1.0f32.to_bits()));
    assert!(m.vertices[3][0] == Coord::F32Bits(0.0f32.to_bits()));
    match m.indices {
        SurfaceIndices::Quads(q) => {
            assert_eq!(q.len(), 6);
            assert_eq!(q[1], [4, 5, 6, 7]);
        }
        _ => panic!("expected quads"),
    }
}

#[test]
fn ply_big_endian_doubles() {
    let data = cube_ply_big_endian();
    let m = load(&data, "ply").unwrap();
    assert_eq!(m.vertices.len(), 3);
    assert!(m.vertices[1][0] == Coord::F64Bits(1.0f64.to_bits()));
    assert!(matches!(m.indices, SurfaceIndices::Triangles(t) if t == vec![[0, 1, 2]]));
}

#[test]
fn ply_more_faces_than_vertices() {
    let mut d = b"ply\nformat binary_little_endian 1.0\nelement vertex 3\nproperty float x\nproperty float y\nproperty float z\nelement face 4\nproperty list uchar int vertex_indices\nend_header\n".to_vec();
    for _ in 0..9 {
        d.extend_from_slice(&0f32.to_le_bytes());
    }
    for _ in 0..4 {
        d.push(3);
        for i in [0i32, 1, 2].iter() {
            d.extend_from_slice(&i.to_le_bytes());
        }
    }
    let m = load(&d, "ply").unwrap();
    assert!(matches!(m.indices, SurfaceIndices::Triangles(t) if t.len() == 4));
}

#[test]
fn ply_without_magic_is_an_error() {
    assert!(load(b"plx\nformat ascii 1.0\n", "ply").is_err());
}

#[test]
fn ply_faces_of_two_vertices_only_is_an_error() {
    let data = b"ply\nformat ascii 1.0\nelement vertex 2\nproperty float x\nproperty float y\nproperty float z\nelement face 1\nproperty list uchar int vertex_indices\nend_header\n0 0 0\n1 0 0\n2 0 1\n";
    assert!(load(data, "ply").is_err());
}

#[test]
fn ply_missing_coordinate_is_an_error() {
    let data = b"ply\nformat ascii 1.0\nelement vertex 1\nproperty float x\nproperty float y\nelement face 0\nproperty list uchar int vertex_indices\nend_header\n0 0\n";
    assert!(load(data, "ply").is_err());
}

#[test]
fn ply_incomplete_header_gives_empty_mesh() {
    let m = load(b"ply\nformat ascii 1.0\nelement vertex 1\n", "ply").unwrap();
    assert_eq!(m.vertices.len(), 0);
}

#[test]
fn unknown_format_is_an_error() {
    assert!(load(b"hello\n", "txt").is_err());
    assert!(load_mesh_bytes(b"v 0 0 0\n", None).is_err());
}

#[test]
fn off_mixed_faces_become_polygons() {
    let data = b"OFF\n5 3 0\n0 0 0\n1 0 0\n1 1 0\n0 1 0\n2 0.5 0\n3 0 1 2\n4 0 1 2 3\n5 0 1 4 2 3\n";
    let m = load(data, "off").unwrap();
    match m.indices {
        SurfaceIndices::Polygons(i, o) => {
            assert_eq!(i, vec![0, 1, 2, 0, 1, 2, 3, 0, 1, 4, 2, 3]);
            assert_eq!(o, vec![0, 3, 7, 12]);
        }
        _ => panic!("expected polygons"),
    }
}

#[test]
fn ply_binary_mixed_faces_become_polygons() {
    let mut d = b"ply\nformat binary_little_endian 1.0\nelement vertex 5\nproperty float x\nproperty float y\nproperty float z\nelement face 3\nproperty list uchar int vertex_indices\nend_header\n".to_vec();
    for _ in 0..15 {
        d.extend_from_slice(&0f32.to_le_bytes());
    }
    let faces: [&[i32]; 3] = [&[0, 1, 2], &[0, 1, 2, 3], &[0, 1, 4, 2, 3]];
    for f in faces.iter() {
        d.push(f.len() as u8);
        for i in f.iter() {
            d.extend_from_slice(&i.to_le_bytes());
        }
    }
    let m = load(&d, "ply").unwrap();
    match m.indices {
        SurfaceIndices::Polygons(i, o) => {
            assert_eq!(i, vec![0, 1, 2, 0, 1, 2, 3, 0, 1, 4, 2, 3]);
            assert_eq!(o, vec![0, 3, 7, 12]);
        }
        _ => panic!("expected polygons"),
    }
}

#[test]
fn ply_text_mixed_faces_become_polygons() {
    let data = b"ply\nformat ascii 1.0\nelement vertex 5\nproperty float x\nproperty float y\nproperty float z\nelement face 3\nproperty list uchar int vertex_indices\nend_header\n0 0 0\n1 0 0\n1 1 0\n0 1 0\n2 0.5 0\n3 0 1 2\n4 0 1 2 3\n5 0 1 4 2 3\n";
    let m = load(data, "ply").unwrap();
    match m.indices {
        SurfaceIndices::Polygons(i, o) => {
            assert_eq!(i, vec![0, 1, 2, 0, 1, 2, 3, 0, 1, 4, 2, 3]);
            assert_eq!(o, vec![0, 3, 7, 12]);
        }
        _ => panic!("expected polygons"),
    }
}

#[test]
fn ply_truncated_text_body_keeps_what_was_read() {
    let data = b"ply\nformat ascii 1.0\nelement vertex 3\nproperty float x\nproperty float y\nproperty float z\nelement face 2\nproperty list uchar int vertex_indices\nend_header\n0 0 0\n1 0 0\n0 1 0\n2 0 1\n";
    let m = load(data, "ply").unwrap();
    assert_eq!(m.vertices.len(), 3);
    assert!(matches!(m.indices, SurfaceIndices::Triangles(t) if t.is_empty()));
}

#[test]
fn ply_skipped_elements_keep_the_counts() {
    let data = b"ply\nformat ascii 1.0\nelement material 2\nproperty uchar red\nelement vertex 3\nproperty float x\nproperty float y\nproperty float z\nelement edge 1\nproperty int v1\nelement face 1\nproperty list uchar int vertex_indices\nend_header\n1\n2\n0 0 0\n1 0 0\n0 1 0\n5\n3 0 1 2\n";
    let m = load(data, "ply").unwrap();
    assert_eq!(m.vertices.len(), 3);
    assert_eq!(text_of(data, &m.vertices[1][0]), b"1");
    assert!(matches!(m.indices, SurfaceIndices::Triangles(t) if t == vec![[0, 1, 2]]));
}

#[test]
fn ply_header_counts_after_skipped_elements() {
    let data = b"ply\nformat binary_little_endian 1.0\nelement vertex 8\nproperty float x\nproperty float y\nproperty float z\nelement edge 5\nproperty int v1\nelement face 12\nproperty list uchar int vertex_indices\nend_header\n";
    let mut head = HeadingInfos::new();
    assert_eq!(parse_header(data, 3, data.len(), &mut head), Ok(Some(data.len())));
    assert_eq!(head.nv, 8);
    assert_eq!(head.nf, 12);
    assert!(head.format == Some(Format::LittleEndian));
    assert!(head.v_first_over_f);
    assert!(head.useless_before.is_empty());
    assert_eq!(head.useless_between.len(), 1);
    assert_eq!(head.useless_between[0].count, 5);
    let data = b"ply\nformat ascii 1.0\nelement material 3\nproperty uchar red\nelement vertex 8\n";
    let mut head = HeadingInfos::new();
    assert_eq!(parse_header(data, 3, data.len(), &mut head), Ok(None));
    assert_eq!(head.useless_before.len(), 1);
    assert_eq!(head.useless_before[0].count, 3);
    assert_eq!(head.useless_before[0].types.len(), 1);
    assert_eq!(head.nv, 8);
}

#[test]
fn ply_text_face_with_a_scalar_before_the_list() {
    let data = b"ply\nformat ascii 1.0\nelement vertex 3\nproperty float x\nproperty float y\nproperty float z\nelement face 1\nproperty uchar flags\nproperty list uchar int vertex_indices\nend_header\n0 0 0\n1 0 0\n0 1 0\n7 3 0 1 2\n";
    let m = load(data, "ply").unwrap();
    assert!(matches!(m.indices, SurfaceIndices::Triangles(t) if t == vec![[0, 1, 2]]));
}
