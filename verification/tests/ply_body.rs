use mini_mesh_parser::ply_ascii::parse_ascii;
use mini_mesh_parser::ply_binary::parse_binary;
use mini_mesh_parser::ply_body::BodyInfos;
use mini_mesh_parser::ply_header::Format;
use mini_mesh_parser::ply_types::{RawType, Type};
use mini_mesh_parser::surface::FaceMode;
use mini_mesh_parser::Coord;

fn triangle_infos(format: Format) -> BodyInfos {
    BodyInfos {
        format,
        nv: 3,
        v_x_stride_i: 0,
        v_y_stride_i: 1,
        v_z_stride_i: 2,
        v_stride: vec![Type::Single(RawType::Float); 3],
        nf: 1,
        i_stride_i: 0,
        i_stride: vec![Type::List(RawType::UChar, RawType::Int)],
        v_first_over_f: true,
        useless_before: Vec::new(),
        useless_between: Vec::new(),
        useless_before_count: 0,
        vertex_start: 0,
        face_start: 3,
    }
}

#[test]
fn parse_binary_reports_elements_and_position() {
    let mut data = Vec::new();
    for p in [[0f32, 0.0, 0.0], [1.0, 0.0, 0.0], [0.0, 1.0, 0.0]].iter() {
        for c in p.iter() {
            data.extend_from_slice(&c.to_le_bytes());
        }
    }
    data.push(3);
    for i in [0i32, 1, 2].iter() {
        data.extend_from_slice(&i.to_le_bytes());
    }
    let b = triangle_infos(Format::LittleEndian);
    let (done, v, f, pos, n) = parse_binary(&data, data.len(), 0, &b).unwrap();
    assert!(done);
    assert_eq!(v.len(), 3);
    assert!(v[1][0] == Coord::F32Bits(1.0f32.to_bits()));
    assert!(f.mode == FaceMode::Triangle);
    assert_eq!(f.indices, vec![0, 1, 2]);
    assert_eq!(n, 4);
    assert_eq!(pos, 49);
}

#[test]
fn parse_binary_stops_at_the_last_whole_element() {
    let mut data = Vec::new();
    for _ in 0..9 {
        data.extend_from_slice(&0f32.to_le_bytes());
    }
    data.extend_from_slice(&[3, 0, 0]);
    let b = triangle_infos(Format::LittleEndian);
    let (done, v, f, pos, n) = parse_binary(&data, data.len(), 0, &b).unwrap();
    assert!(!done);
    assert_eq!(v.len(), 3);
    assert!(f.indices.is_empty());
    assert_eq!(n, 3);
    assert_eq!(pos, 36);
}

#[test]
fn parse_ascii_reports_line_and_position() {
    let data = b"0 0 0\n1 0 0\n0 1 0\n3 0 1 2\n";
    let b = triangle_infos(Format::Ascii);
    let (done, v, f, pos, line) = parse_ascii(data, data.len(), 0, &b).unwrap();
    assert!(done);
    assert_eq!(v.len(), 3);
    assert!(f.mode == FaceMode::Triangle);
    assert_eq!(f.indices, vec![0, 1, 2]);
    assert!(f.strides.is_empty());
    assert_eq!(line, 4);
    assert_eq!(pos, 26);
}
