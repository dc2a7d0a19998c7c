use mini_mesh_parser::surface::FaceMode;
use mini_mesh_parser::word_uint::{parse_face_indices_list, parse_u8, parse_uint, parse_uints};

#[test]
fn parse_uint_values() {
    assert_eq!(parse_uint(b"3 0 1 2\x0a", 0, 8), Some((3, 1)));
    assert_eq!(parse_uint(b"12345678 9", 0, 10), Some((9, 10)));
    assert_eq!(parse_uint(b"+7", 0, 2), Some((7, 2)));
    assert_eq!(parse_uint(b" 17 23 999999 4 55\x0a", 0, 19), Some((17, 3)));
    assert_eq!(parse_uint(b"123456789012 5 6\x0a", 0, 17), Some((9012, 4)));
    assert_eq!(parse_uint(b"1234567890123456", 0, 16), None);
    assert_eq!(parse_uint(b"\xb5/ 12 3 45\x0a", 0, 11), Some((65, 2)));
    assert_eq!(parse_uint(b"AB 7\x0a12", 0, 7), Some((1, 1)));
    assert_eq!(parse_uint(b"", 0, 0), None);
}

#[test]
fn parse_uints_values() {
    let mut v: Vec<u32> = vec![7];
    assert_eq!(parse_uints(b"3 0 1 2\x0a", 0, 8, 3, &mut v), Some(5));
    assert_eq!(v, vec![7, 3, 0, 1]);
    let mut v: Vec<u32> = vec![7];
    assert_eq!(parse_uints(b"12 345 6789 10\x0a", 0, 15, 4, &mut v), Some(14));
    assert_eq!(v, vec![7, 12, 345, 6789, 610]);
    let mut v: Vec<u32> = vec![7];
    assert_eq!(parse_uints(b"12345678 9", 0, 10, 2, &mut v), Some(10));
    assert_eq!(v, vec![7, 12345678, 123456789]);
    let mut v: Vec<u32> = vec![7];
    assert_eq!(parse_uints(b"12345678 9", 0, 10, 3, &mut v), None);
    assert_eq!(v, vec![7, 12345678, 123456789]);
    let mut v: Vec<u32> = vec![7];
    assert_eq!(parse_uints(b" 17 23 999999 4 55\x0a", 0, 19, 4, &mut v), Some(15));
    assert_eq!(v, vec![7, 17, 23, 999999, 4]);
    let mut v: Vec<u32> = vec![7];
    assert_eq!(parse_uints(b"123456789012 5 6\x0a", 0, 17, 3, &mut v), Some(16));
    assert_eq!(v, vec![7, 3197704724, 5, 6]);
    let mut v: Vec<u32> = vec![7];
    assert_eq!(parse_uints(b"4 5\x0a6 7 8 9 10 11 12\x0a", 0, 21, 5, &mut v), Some(9));
    assert_eq!(v, vec![7, 4, 5, 6, 7, 8]);
    let mut v: Vec<u32> = vec![7];
    assert_eq!(parse_uints(b"\xb5/ 12 3 45 678\x0a", 0, 15, 3, &mut v), Some(7));
    assert_eq!(v, vec![7, 65, 12, 3]);
    let mut v: Vec<u32> = vec![7];
    assert_eq!(parse_uints(b"1 2 3 4 5 6 7 8 9\x0a", 0, 18, 9, &mut v), Some(17));
    assert_eq!(v, vec![7, 1, 2, 3, 4, 5, 6, 7, 8, 9]);
    let mut v: Vec<u32> = vec![7];
    assert_eq!(parse_uints(b"x9y8 7 6\x0a", 0, 9, 2, &mut v), Some(6));
    assert_eq!(v, vec![7, 8998, 7]);
    let mut v: Vec<u32> = vec![7];
    assert_eq!(parse_uints(b"0 0", 0, 3, 0, &mut v), Some(0));
    assert_eq!(v, vec![7]);
}

#[test]
fn parse_u8_values() {
    assert_eq!(parse_u8(b"3 0 1 2\x0a", 0, 8), Some((3, 1)));
    assert_eq!(parse_u8(b"+12 5", 0, 5), Some((12, 3)));
    assert_eq!(parse_u8(b"300 1", 0, 5), Some((44, 3)));
    assert_eq!(parse_u8(b"a7 1", 0, 4), Some((17, 2)));
    assert_eq!(parse_u8(b"", 0, 0), None);
}
#[test]
fn parse_face_indices_list_values() {
    let mut mode = FaceMode::Undetermined;
    let mut indices: Vec<u32> = vec![];
    let mut strides: Vec<u8> = vec![];
    assert_eq!(parse_face_indices_list(b"3 0 1 2\x0a", 0, 8, &mut mode, &mut indices, &mut strides, 10), Some(8));
    assert!(mode == FaceMode::Triangle);
    assert_eq!(indices, vec![0, 1, 2]);
    assert!(strides.is_empty());
    let mut mode = FaceMode::Triangle;
    let mut indices: Vec<u32> = vec![0, 1, 2];
    let mut strides: Vec<u8> = vec![];
    assert_eq!(parse_face_indices_list(b"4 0 1 2 3\x0a", 0, 10, &mut mode, &mut indices, &mut strides, 10), Some(10));
    assert!(mode == FaceMode::Polygon);
    assert_eq!(indices, vec![0, 1, 2, 0, 1, 2, 3]);
    assert_eq!(strides, vec![3, 4]);
    let mut mode = FaceMode::Undetermined;
    let mut indices: Vec<u32> = vec![];
    let mut strides: Vec<u8> = vec![];
    assert_eq!(parse_face_indices_list(b"2 0 1\x0a", 0, 6, &mut mode, &mut indices, &mut strides, 10), None);
    assert!(mode == FaceMode::Undetermined);
    assert!(indices.is_empty());
    assert!(strides.is_empty());
    let mut mode = FaceMode::Undetermined;
    let mut indices: Vec<u32> = vec![];
    let mut strides: Vec<u8> = vec![];
    assert_eq!(parse_face_indices_list(b"3 0 1\x0a", 0, 6, &mut mode, &mut indices, &mut strides, 10), None);
    assert!(mode == FaceMode::Triangle);
    assert_eq!(indices, vec![0, 1]);
    assert!(strides.is_empty());
    let mut mode = FaceMode::Undetermined;
    let mut indices: Vec<u32> = vec![];
    let mut strides: Vec<u8> = vec![];
    assert_eq!(parse_face_indices_list(b"3  4 5 6 extra\x0anext", 0, 19, &mut mode, &mut indices, &mut strides, 10), Some(15));
    assert!(mode == FaceMode::Triangle);
    assert_eq!(indices, vec![4, 5, 6]);
    assert!(strides.is_empty());
    let mut mode = FaceMode::Quad;
    let mut indices: Vec<u32> = vec![0, 1, 2, 3];
    let mut strides: Vec<u8> = vec![];
    assert_eq!(parse_face_indices_list(b"5 0 1 2 3 4\x0d\x0a", 0, 13, &mut mode, &mut indices, &mut strides, 10), Some(13));
    assert!(mode == FaceMode::Polygon);
    assert_eq!(indices, vec![0, 1, 2, 3, 0, 1, 2, 3, 4]);
    assert_eq!(strides, vec![4, 5]);
    let mut mode = FaceMode::Undetermined;
    let mut indices: Vec<u32> = vec![];
    let mut strides: Vec<u8> = vec![];
    assert_eq!(parse_face_indices_list(b"3 10 20 30\x0d", 0, 11, &mut mode, &mut indices, &mut strides, 10), None);
    assert!(mode == FaceMode::Triangle);
    assert_eq!(indices, vec![10, 20, 30]);
    assert!(strides.is_empty());
}

#[test]
fn parse_face_indices_list_refuses_more_faces_than_announced() {
    let mut mode = FaceMode::Triangle;
    let mut indices: Vec<u32> = vec![0, 1, 2, 0, 2, 3];
    let mut strides: Vec<u8> = vec![];
    assert_eq!(parse_face_indices_list(b"4 0 1 2 3\n", 0, 10, &mut mode, &mut indices, &mut strides, 1), None);
    assert!(mode == FaceMode::Triangle);
    assert_eq!(indices, vec![0, 1, 2, 0, 2, 3]);
    assert!(strides.is_empty());
}

#[test]
fn parse_uints_agree_on_mixed_bytes() {
    let mut v: Vec<u32> = Vec::new();
    assert_eq!(parse_uints(b"4 \xb512B3 x1A612  272B", 0, 20, 4, &mut v), Some(19));
    assert_eq!(v, Vec::<u32>::from([4, 51223, 811612, 272]));
    let mut v: Vec<u32> = Vec::new();
    assert_eq!(parse_uints(b"x37", 0, 3, 6, &mut v), None);
    assert_eq!(v, Vec::<u32>::from([0, 37]));
    let mut v: Vec<u32> = Vec::new();
    assert_eq!(parse_uints(b"xx ", 0, 3, 1, &mut v), Some(0));
    assert_eq!(v, Vec::<u32>::from([0]));
    let mut v: Vec<u32> = Vec::new();
    assert_eq!(parse_uints(b"1B49 4B3x9B\xf053", 0, 14, 5, &mut v), None);
    assert_eq!(v, Vec::<u32>::from([1249, 423, 4239, 42353]));
    let mut v: Vec<u32> = Vec::new();
    assert_eq!(parse_uints(b" 3B2x1+6/\xf0B ", 0, 12, 3, &mut v), None);
    assert_eq!(v, Vec::<u32>::from([32281, 6]));
    let mut v: Vec<u32> = Vec::new();
    assert_eq!(parse_uints(b"x\x0a 97572x9A/ \x0a9+23A 5 4/ 1\xf02B", 0, 29, 5, &mut v), Some(21));
    assert_eq!(v, Vec::<u32>::from([8, 97572891, 9, 231, 5]));
    let mut v: Vec<u32> = Vec::new();
    assert_eq!(parse_uints(b"  +/x\x0a228/\xf0219\xb5x\xf0\x0a9 ", 0, 20, 6, &mut v), None);
    assert_eq!(v, Vec::<u32>::from([8, 228, 21958, 219589]));
    let mut v: Vec<u32> = Vec::new();
    assert_eq!(parse_uints(b"0\x0a 5+3/16947  /25\x0a B84", 0, 22, 4, &mut v), Some(12));
    assert_eq!(v, Vec::<u32>::from([0, 5, 3, 16947]));
    let mut v: Vec<u32> = Vec::new();
    assert_eq!(parse_uints(b"  \xf0 742547\xf070/x58", 0, 17, 3, &mut v), Some(17));
    assert_eq!(v, Vec::<u32>::from([0, 742547070, 858]));
    let mut v: Vec<u32> = Vec::new();
    assert_eq!(parse_uints(b"", 0, 0, 2, &mut v), None);
    assert_eq!(v, Vec::<u32>::from([0]));
    let mut v: Vec<u32> = Vec::new();
    assert_eq!(parse_uints(b"B +x 4A+\xb5\xf01\x0a\xf0B    3/\xb5 1626", 0, 26, 4, &mut v), Some(11));
    assert_eq!(v, Vec::<u32>::from([2, 8, 41, 501]));
    let mut v: Vec<u32> = Vec::new();
    assert_eq!(parse_uints(b"3 +130x4B3", 0, 10, 3, &mut v), Some(10));
    assert_eq!(v, Vec::<u32>::from([3, 13084, 130843]));
    let mut v: Vec<u32> = Vec::new();
    assert_eq!(parse_uints(b"2", 0, 1, 2, &mut v), None);
    assert_eq!(v, Vec::<u32>::from([2]));
    let mut v: Vec<u32> = Vec::new();
    assert_eq!(parse_uints(b"4\xb58 + /33/\x0a//9243 8/5A06", 0, 24, 5, &mut v), Some(24));
    assert_eq!(v, Vec::<u32>::from([458, 33, 9243, 8, 5106]));
    let mut v: Vec<u32> = Vec::new();
    assert_eq!(parse_uints(b"4B0A9\xb528A 5 7BBA \xb57+67 ", 0, 23, 6, &mut v), None);
    assert_eq!(v, Vec::<u32>::from([420195281, 5, 7221, 72217, 722167]));
    let mut v: Vec<u32> = Vec::new();
    assert_eq!(parse_uints(b"6A/ 008/86+ \x0a ", 0, 14, 3, &mut v), Some(10));
    assert_eq!(v, Vec::<u32>::from([61, 8, 86]));
    let mut v: Vec<u32> = Vec::new();
    assert_eq!(parse_uints(b"737/6", 0, 5, 3, &mut v), None);
    assert_eq!(v, Vec::<u32>::from([737, 6]));
    let mut v: Vec<u32> = Vec::new();
    assert_eq!(parse_uints(b"/++0/\xb5 \xb52\xf03 6", 0, 13, 4, &mut v), Some(11));
    assert_eq!(v, Vec::<u32>::from([0, 5, 52, 53]));
    let mut v: Vec<u32> = Vec::new();
    assert_eq!(parse_uints(b" \xb5 2 \x0a 2554", 0, 11, 1, &mut v), Some(2));
    assert_eq!(v, Vec::<u32>::from([5]));
    let mut v: Vec<u32> = Vec::new();
    assert_eq!(parse_uints(b"x\x0a\xb54++/\xf0 ", 0, 9, 2, &mut v), Some(4));
    assert_eq!(v, Vec::<u32>::from([8, 54]));
    let mut v: Vec<u32> = Vec::new();
    assert_eq!(parse_uints(b"00\xb53A4 6", 0, 8, 2, &mut v), Some(8));
    assert_eq!(v, Vec::<u32>::from([5314, 6]));
    let mut v: Vec<u32> = Vec::new();
    assert_eq!(parse_uints(b"8", 0, 1, 2, &mut v), None);
    assert_eq!(v, Vec::<u32>::from([8]));
    let mut v: Vec<u32> = Vec::new();
    assert_eq!(parse_uints(b"A7x 8B 41 \x0a\xf0xA A4B", 0, 18, 2, &mut v), Some(6));
    assert_eq!(v, Vec::<u32>::from([178, 82]));
    let mut v: Vec<u32> = Vec::new();
    assert_eq!(parse_uints(b"A0\x0a5+0454/+3B1 \xf0AAB/3B176813A\x0aB02", 0, 33, 4, &mut v), Some(14));
    assert_eq!(v, Vec::<u32>::from([10, 5, 454, 321]));
    let mut v: Vec<u32> = Vec::new();
    assert_eq!(parse_uints(b"+A+A68\x0aAB/A7A8B6\x0a4 3", 0, 20, 4, &mut v), Some(16));
    assert_eq!(v, Vec::<u32>::from([1, 168, 12, 171826]));
    let mut v: Vec<u32> = Vec::new();
    assert_eq!(parse_uints(b" 2\xf07 26\xf0934\xb5\xf0 484\x0a73 /5\xf075 A", 0, 28, 4, &mut v), Some(20));
    assert_eq!(v, Vec::<u32>::from([207, 26093450, 484, 73]));
    let mut v: Vec<u32> = Vec::new();
    assert_eq!(parse_uints(b" 6  2 0 B\x0a\x0a0  A+9A237", 0, 21, 1, &mut v), Some(2));
    assert_eq!(v, Vec::<u32>::from([6]));
    let mut v: Vec<u32> = Vec::new();
    assert_eq!(parse_uints(b"88158", 0, 5, 2, &mut v), None);
    assert_eq!(v, Vec::<u32>::from([88158]));
    let mut v: Vec<u32> = Vec::new();
    assert_eq!(parse_uints(b"\xf08 4BAx/ 2815 280\xb5282+7283\x0a", 0, 27, 1, &mut v), Some(2));
    assert_eq!(v, Vec::<u32>::from([8]));
    let mut v: Vec<u32> = Vec::new();
    assert_eq!(parse_uints(b"B 8+41A73581569\xb59A69\x0a", 0, 21, 5, &mut v), None);
    assert_eq!(v, Vec::<u32>::from([2, 8, 2779487391, 2025070113]));
}

#[test]
fn parse_uint_agrees_on_mixed_bytes() {
    assert_eq!(parse_uint(b"8 08100AB6A", 0, 11), Some((8, 1)));
    assert_eq!(parse_uint(b"7\x0a3\xf0\xb5 \xf0/B A967 6\xb54  1402\xb58 512", 0, 30), Some((7, 1)));
    assert_eq!(parse_uint(b"A\xf09+791\x0a558\x0a08  B 7196 5", 0, 24), Some((109, 3)));
    assert_eq!(parse_uint(b"", 0, 0), None);
    assert_eq!(parse_uint(b" 2/8A\xb567A02824 x1 099", 0, 21), Some((2, 2)));
    assert_eq!(parse_uint(b"2xA4\xf0+  /49+\xb54", 0, 14), Some((28140, 5)));
    assert_eq!(parse_uint(b"A\xb5", 0, 2), Some((1, 1)));
    assert_eq!(parse_uint(b"A4AAx0\xf0x\xf0\xb572014\xb5 3 \x0aB1\xb50\xb5B\xf0", 0, 27), Some((3, 2)));
    assert_eq!(parse_uint(b"/80\x0a2AB2\xf0A2/828", 0, 15), Some((1580, 3)));
    assert_eq!(parse_uint(b"67\xb5\x0a/ 2/\xf091+\xb5\xb56", 0, 15), Some((675, 3)));
    assert_eq!(parse_uint(b"+4 8", 0, 4), Some((4, 2)));
    assert_eq!(parse_uint(b"+x40/1/8\xf036\xf0/9A9\x0a\x0a\x0a", 0, 19), Some((11840, 4)));
    assert_eq!(parse_uint(b"B692/09", 0, 7), Some((2692, 4)));
    assert_eq!(parse_uint(b"2A\x0a8 662x24A8 4+\xb5A83 7// 050/", 0, 29), Some((21, 2)));
    assert_eq!(parse_uint(b" 94    3 0   36098 2  x2  81", 0, 28), Some((94, 3)));
    assert_eq!(parse_uint(b"31\xf09\xb5478 A 6  0\xb5 ", 0, 17), Some((1, 2)));
    assert_eq!(parse_uint(b"21 \x0a+4\xb59/1B45", 0, 13), Some((21, 2)));
    assert_eq!(parse_uint(b"  998\xb58 \xb579/B\xf0 35\xb5526A/B7\x0a \x0a 4", 0, 30), Some((99858, 7)));
    assert_eq!(parse_uint(b"725 B2 7 8x6", 0, 12), Some((725, 3)));
    assert_eq!(parse_uint(b" ", 0, 1), Some((0, 1)));
    assert_eq!(parse_uint(b" A6 8 1/8x 4\xf0AA\xb56287  \xb5\x0a", 0, 24), Some((16, 3)));
    assert_eq!(parse_uint(b"9041 /x/02 A\x0a\x0a73744A\xf03\xb5\x0a2B1", 0, 27), Some((9041, 4)));
    assert_eq!(parse_uint(b"", 0, 0), None);
    assert_eq!(parse_uint(b"7x1\xb594\xb58", 0, 8), None);
    assert_eq!(parse_uint(b"\xb5 3329Ax6 87+00B9\x0a8 \xb57/A7B70 \xb5910", 0, 33), Some((5, 1)));
    assert_eq!(parse_uint(b"/\xf0\xb5 287\xf0  7/", 0, 12), Some((1505, 3)));
    assert_eq!(parse_uint(b"  ", 0, 2), Some((0, 1)));
    assert_eq!(parse_uint(b"\xf0 609A26/6967\x0a7893+/+57", 0, 23), Some((0, 1)));
    assert_eq!(parse_uint(b" \xf01+4 160+4 115 \x0a 325 65\xb5A\x0a19\xf0 ", 0, 31), Some((1, 3)));
    assert_eq!(parse_uint(b" \x0a530282  3B6  9 21/6 B", 0, 23), Some((326, 5)));
}
