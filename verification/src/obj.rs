use vstd::prelude::*;
use crate::mesh::{RawMesh, last_line_end, mesh_matches, rfind_newline, terminated, terminated_copy};
use crate::scan::{
    ByteClass, Coord, find_class, find_from, lemma_find_from_range, find_newline, float3_spec, lemma_find_from,
    parse_float3, digits_end, dec_acc, read_digits,
};
use crate::surface::{FaceBuilder, FaceMode, add_face_spec};
use crate::surface_laws::{faces_agree, faces_consistent, lemma_add_face_consistent, sum_lens};

verus! {

/// A vertex index of a face: one-based, or counted back from the end when negative. Its value
/// (zero-based, 32 bits that wrap) and how many bytes it takes.
pub open spec fn obj_int_spec(s: Seq<u8>, p: int, end: int, pos_sz: u32) -> Option<(u32, int)> {
    if p >= end {
        None
    } else {
        let neg = s[p] == 45;
        let start = if s[p] == 43 || neg {
            p + 1
        } else {
            p
        };
        let e = digits_end(s, start, end);
        let acc = dec_acc(s, start, e);
        let res = if !neg {
            vstd::wrapping::u32_specs::wrapping_sub(acc, 1)
        } else {
            vstd::wrapping::u32_specs::wrapping_sub(pos_sz, acc)
        };
        Some((res, e - p))
    }
}

/// Reads one vertex index of a face from `data[p..end]`, `pos_sz` vertices being read so far:
/// an optional sign, then digits. A positive index `k` gives `k - 1`, a negative one `-k`
/// gives `pos_sz - k` (both in 32 bits that wrap). The value and the number of bytes read;
/// `None` where no byte is left.
pub fn parse_int(data: &[u8], p: usize, end: usize, pos_sz: u32) -> (r: Option<(u32, usize)>)
    requires
        end <= data.len(),
    ensures
        r matches Some((v, l)) ==> obj_int_spec(data@, p as int, end as int, pos_sz) == Some(
            (v, l as int),
        ) && p + l <= end,
        r is None ==> obj_int_spec(data@, p as int, end as int, pos_sz) is None,
{
    if p >= end {
        return None;
    }
    let neg = data[p] == 45;
    let start = if data[p] == 43 || neg {
        p + 1
    } else {
        p
    };
    let (e, acc) = read_digits(data, start, end);
    let res = if !neg {
        acc.wrapping_sub(1)
    } else {
        pos_sz.wrapping_sub(acc)
    };
    Some((res, e - p))
}

/// The vertex indices of a face line from the third on, starting at `d`: the indices and
/// where the reader goes on. `None` where the line is malformed (or would make no progress).
pub open spec fn face_tail_spec(s: Seq<u8>, d: int, end: int, pos_sz: u32, acc: Seq<u32>) -> Option<
    (Seq<u32>, int),
>
    decreases end - d,
{
    match obj_int_spec(s, d, end, pos_sz) {
        None => Some((acc, d)),
        Some((v, l)) => {
            let acc2 = acc.push(v);
            let e = d + l;
            if e == end {
                Some((acc2, d))
            } else {
                let e1 = if s[e] == 47 {
                    find_from(s, e + 1, end, ByteClass::BelowBang)
                } else {
                    Some(e)
                };
                match e1 {
                    None => Some((acc2, d)),
                    Some(e1) => match find_from(s, e1, end, ByteClass::NotSpace) {
                        None => None,
                        Some(e2) => {
                            if s[e2] == 13 || s[e2] == 10 {
                            match find_from(s, e2, end, ByteClass::NotSpaceNorCr) {
                                None => None,
                                Some(e3) => Some((acc2, e3)),
                            }
                        } else if e2 <= d || e2 > end {
                            None
                        } else {
                            face_tail_spec(s, e2, end, pos_sz, acc2)
                        }
                        },
                    },
                }
            }
        },
    }
}

/// The vertex indices of the face whose text starts at `fs` (after `"f "`), and where the
/// reader goes on.
pub open spec fn face_spec(s: Seq<u8>, fs: int, end: int, pos_sz: u32) -> Option<(Seq<u32>, int)> {
    match find_from(s, fs, end, ByteClass::NotSpace) {
        None => None,
        Some(a) => match obj_int_spec(s, a, end, pos_sz) {
            None => None,
            Some((f0, l0)) => match find_from(s, a + l0, end, ByteClass::Space) {
                None => None,
                Some(b) => match find_from(s, b + 1, end, ByteClass::NotSpace) {
                    None => None,
                    Some(c) => match obj_int_spec(s, c, end, pos_sz) {
                        None => None,
                        Some((f1, l1)) => match find_from(s, c + l1, end, ByteClass::Space) {
                            None => None,
                            Some(b2) => match find_from(s, b2 + 1, end, ByteClass::NotSpace) {
                                None => None,
                                Some(d) => face_tail_spec(s, d, end, pos_sz, seq![f0, f1]),
                            },
                        },
                    },
                },
            },
        },
    }
}

/// Reads the rest of a face's indices, the first two being `f0` and `f1`.
fn parse_face_tail(data: &[u8], d0: usize, end: usize, pos_sz: u32, f0: u32, f1: u32) -> (r: Option<
    (Vec<u32>, usize),
>)
    requires
        end <= data.len(),
    ensures
        r matches Some((f, e)) ==> face_tail_spec(data@, d0 as int, end as int, pos_sz, seq![f0, f1])
            == Some((f@, e as int)),
        r is None ==> face_tail_spec(data@, d0 as int, end as int, pos_sz, seq![f0, f1]) is None,
{
    let ghost goal = face_tail_spec(data@, d0 as int, end as int, pos_sz, seq![f0, f1]);
    let mut acc: Vec<u32> = Vec::new();
    acc.push(f0);
    acc.push(f1);
    assert(acc@ =~= seq![f0, f1]);
    let mut d = d0;
    loop
        invariant
            end <= data.len(),
            face_tail_spec(data@, d as int, end as int, pos_sz, acc@) == goal,
            goal == face_tail_spec(data@, d0 as int, end as int, pos_sz, seq![f0, f1]),
        decreases end - d,
    {
        match parse_int(data, d, end, pos_sz) {
            None => {
                return Some((acc, d));
            },
            Some((v, l)) => {
                acc.push(v);
                let e = d + l;
                if e == end {
                    return Some((acc, d));
                }
                let e1 = if data[e] == 47 {
                    match find_class(data, e + 1, end, ByteClass::BelowBang) {
                        Some(q) => q,
                        None => {
                            return Some((acc, d));
                        },
                    }
                } else {
                    e
                };
                proof {
                    lemma_find_from(data@, e1 as int, end as int, ByteClass::NotSpace);
                }
                let e2 = find_class(data, e1, end, ByteClass::NotSpace)?;
                if data[e2] == 13 || data[e2] == 10 {
                    proof {
                        lemma_find_from(data@, e2 as int, end as int, ByteClass::NotSpaceNorCr);
                    }
                    let e3 = find_class(data, e2, end, ByteClass::NotSpaceNorCr)?;
                    return Some((acc, e3));
                } else if e2 <= d {
                    return None;
                }
                d = e2;
            },
        }
    }
}

/// Reads the vertex indices of an OBJ face whose text starts at `fs` (after `"f "`): spaces,
/// two indices each followed by spaces, then the others, each index perhaps followed by
/// `/texture/normal` parts, which are passed over. The indices (zero-based) and the position
/// where the reader goes on, after the line end; `None` where the face is malformed. It only
/// reads the face: recording it into the faces collected is `parse_face_into`'s work (through
/// `FaceBuilder::add_face`).
pub fn parse_face_indices(data: &[u8], fs: usize, end: usize, pos_sz: u32) -> (r: Option<(Vec<u32>, usize)>)
    requires
        end <= data.len(),
    ensures
        r matches Some((f, e)) ==> face_spec(data@, fs as int, end as int, pos_sz) == Some(
            (f@, e as int),
        ),
        r is None ==> face_spec(data@, fs as int, end as int, pos_sz) is None,
{
    proof {
        lemma_find_from(data@, fs as int, end as int, ByteClass::NotSpace);
    }
    let a = find_class(data, fs, end, ByteClass::NotSpace)?;
    let (f0, l0) = parse_int(data, a, end, pos_sz)?;
    proof {
        lemma_find_from(data@, a + l0, end as int, ByteClass::Space);
    }
    let b = find_class(data, a + l0, end, ByteClass::Space)?;
    proof {
        lemma_find_from(data@, b + 1, end as int, ByteClass::NotSpace);
    }
    let c = find_class(data, b + 1, end, ByteClass::NotSpace)?;
    let (f1, l1) = parse_int(data, c, end, pos_sz)?;
    proof {
        lemma_find_from(data@, c + l1, end as int, ByteClass::Space);
    }
    let b2 = find_class(data, c + l1, end, ByteClass::Space)?;
    proof {
        lemma_find_from(data@, b2 + 1, end as int, ByteClass::NotSpace);
    }
    let d = find_class(data, b2 + 1, end, ByteClass::NotSpace)?;
    parse_face_tail(data, d, end, pos_sz, f0, f1)
}

} // verus!

verus! {

/// Reads the face whose text starts at `fs` (`nv` vertices being read so far) and records it
/// into `faces`: the position where the reader goes on. `None`, with `faces` left as it
/// was, where the face is malformed.
pub fn parse_face_into(data: &[u8], fs: usize, end: usize, nv: u32, faces: &mut FaceBuilder) -> (r: Option<usize>)
    requires
        end <= data.len(),
    ensures
        match face_spec(data@, fs as int, end as int, nv) {
            None => r is None && final(faces).state() == old(faces).state(),
            Some((face, e)) => r matches Some(e2) && e2 == e && final(faces).state() == add_face_spec(
                old(faces).mode,
                old(faces).indices@,
                old(faces).strides@,
                face,
            ),
        },
{
    let (face, e) = parse_face_indices(data, fs, end, nv)?;
    faces.add_face(&face);
    Some(e)
}

/// The state an OBJ reader has built: the vertices, and the mode, indices and strides of the faces.
pub type ObjState = (Seq<[Coord; 3]>, FaceMode, Seq<u32>, Seq<u8>);

/// Reads the lines of `s` from `i` up to `last`, the end of the last complete line.
pub open spec fn obj_lines(s: Seq<u8>, last: int, i: int, st: ObjState) -> Option<ObjState>
    decreases (if i < last {
        last - i
    } else {
        0
    }),
{
    let (verts, mode, idx, strides) = st;
    if i >= last {
        Some(st)
    } else if s[i] == 118 {
        if i + 1 >= s.len() {
            None
        } else if s[i + 1] == 32 {
            match float3_spec(s, i + 2, s.len() as int) {
                None => None,
                Some((off, c)) => {
                    let next = i + 2 + off;
                    if next <= i {
                        None
                    } else {
                        obj_lines(s, last, next, (verts.push(c), mode, idx, strides))
                    }
                },
            }
        } else {
            match find_from(s, i + 1, s.len() as int, ByteClass::Newline) {
                None => None,
                Some(q) => if q + 1 <= i {
                    None
                } else {
                    obj_lines(s, last, q + 1, st)
                },
            }
        }
    } else if s[i] == 102 {
        let nv = verts.len() as u32;
        match face_spec(s, i + 2, s.len() as int, nv) {
            None => None,
            Some((face, e)) => if e <= i {
                None
            } else {
                let (m2, i2, s2) = add_face_spec(mode, idx, strides, face);
                obj_lines(s, last, e, (verts, m2, i2, s2))
            },
        }
    } else {
        match find_from(s, i, s.len() as int, ByteClass::Newline) {
            None => None,
            Some(q) => if q + 1 <= i {
                None
            } else {
                obj_lines(s, last, q + 1, st)
            },
        }
    }
}

pub open spec fn obj_initial() -> ObjState {
    (Seq::empty(), FaceMode::Undetermined, Seq::empty(), Seq::empty())
}

/// What an OBJ text gives: the lines are read up to the end of the last complete line;
/// `None` where a line is malformed.
pub open spec fn obj_text_spec(s: Seq<u8>) -> Option<ObjState> {
    match rfind_newline(s, s.len() as int) {
        None => Some(obj_initial()),
        Some(last) => obj_lines(s, last, 0, obj_initial()),
    }
}

/// Parses an OBJ text: the `v` lines give the vertices, the `f` lines the faces; other lines
/// are skipped.
fn obj_text(data: &[u8]) -> (r: Result<RawMesh, ()>)
    ensures
        mesh_matches(r, obj_text_spec(data@)),
        obj_text_spec(data@) matches Some(st) ==> faces_agree(st.1, st.2, st.3),
{
    proof {
        let w = lemma_obj_text_faces(data@);
        if let Some(st) = obj_text_spec(data@) {
            assert(faces_consistent(st.1, st.2, st.3, w));
        }
    }
    let mut vertices: Vec<[Coord; 3]> = Vec::new();
    let mut faces = FaceBuilder::new();
    let last = match last_line_end(data) {
        None => {
            return Ok(RawMesh { vertices, indices: faces.finish() });
        },
        Some(l) => l,
    };
    let ghost goal = obj_text_spec(data@);
    let len = data.len();
    let mut i: usize = 0;
    while i < last
        invariant
            last <= len == data@.len(),
            1 <= last,
            data@[last - 1] == 10,
            goal == obj_text_spec(data@),
            goal == obj_lines(data@, last as int, i as int, (vertices@, faces.mode, faces.indices@, faces.strides@)),
        decreases (if i < last {
            last - i
        } else {
            0
        }),
    {
        if data[i] == 118 {
            if i + 1 >= len {
                return Err(());
            }
            if data[i + 1] == 32 {
                let (off, c) = match parse_float3(data, i + 2, len) {
                    Some(x) => x,
                    None => {
                        return Err(());
                    },
                };
                let next = i + 2 + off;
                if next <= i {
                    return Err(());
                }
                vertices.push(c);
                i = next;
            } else {
                let q = match find_newline(data, i + 1, len) {
                    Some(q) => q,
                    None => {
                        return Err(());
                    },
                };
                i = q + 1;
            }
        } else if data[i] == 102 {
            let nv = vertices.len() as u32;
            let e = match parse_face_into(data, i + 2, len, nv, &mut faces) {
                Some(e) => e,
                None => {
                    return Err(());
                },
            };
            if e <= i {
                return Err(());
            }
            i = e;
        } else {
            let q = match find_newline(data, i, len) {
                Some(q) => q,
                None => {
                    return Err(());
                },
            };
            i = q + 1;
        }
    }
    Ok(RawMesh { vertices, indices: faces.finish() })
}

} // verus!

verus! {

proof fn lemma_face_tail_len(s: Seq<u8>, d: int, end: int, pos_sz: u32, acc: Seq<u32>)
    ensures
        face_tail_spec(s, d, end, pos_sz, acc) matches Some((f, _)) ==> f.len() >= acc.len() + (if d < end {
            1int
        } else {
            0int
        }),
    decreases end - d,
{
    if let Some((v, l)) = obj_int_spec(s, d, end, pos_sz) {
        let acc2 = acc.push(v);
        let e = d + l;
        if e != end {
            let e1 = if s[e] == 47 {
                find_from(s, e + 1, end, ByteClass::BelowBang)
            } else {
                Some(e)
            };
            if let Some(e1) = e1 {
                if let Some(e2) = find_from(s, e1, end, ByteClass::NotSpace) {
                    if !(s[e2] == 13 || s[e2] == 10) && !(e2 <= d || e2 > end) {
                        lemma_face_tail_len(s, e2, end, pos_sz, acc2);
                    }
                }
            }
        }
    }
}

proof fn lemma_face_len(s: Seq<u8>, fs: int, end: int, pos_sz: u32)
    ensures
        face_spec(s, fs, end, pos_sz) matches Some((f, _)) ==> f.len() >= 3,
{
    if let Some(a) = find_from(s, fs, end, ByteClass::NotSpace) {
        if let Some((f0, l0)) = obj_int_spec(s, a, end, pos_sz) {
            if let Some(b) = find_from(s, a + l0, end, ByteClass::Space) {
                if let Some(c) = find_from(s, b + 1, end, ByteClass::NotSpace) {
                    if let Some((f1, l1)) = obj_int_spec(s, c, end, pos_sz) {
                        if let Some(b2) = find_from(s, c + l1, end, ByteClass::Space) {
                            lemma_find_from_range(s, b2 + 1, end, ByteClass::NotSpace);
                            if let Some(d) = find_from(s, b2 + 1, end, ByteClass::NotSpace) {
                                lemma_face_tail_len(s, d, end, pos_sz, seq![f0, f1]);
                            }
                        }
                    }
                }
            }
        }
    }
}

#[verifier::rlimit(60)]
proof fn lemma_obj_lines_consistent(s: Seq<u8>, last: int, i: int, st: ObjState, lens: Seq<nat>) -> (lens2: Seq<nat>)
    requires
        faces_consistent(st.1, st.2, st.3, lens),
    ensures
        obj_lines(s, last, i, st) matches Some(r) ==> faces_consistent(r.1, r.2, r.3, lens2),
    decreases (if i < last {
        last - i
    } else {
        0
    }),
{
    let (verts, mode, idx, strides) = st;
    if i >= last {
        lens
    } else if s[i] == 118 {
        if i + 1 < s.len() && s[i + 1] == 32 {
            match float3_spec(s, i + 2, s.len() as int) {
                Some((off, c)) => {
                    let next = i + 2 + off;
                    if next > i {
                        lemma_obj_lines_consistent(s, last, next, (verts.push(c), mode, idx, strides), lens)
                    } else {
                        lens
                    }
                },
                None => lens,
            }
        } else if i + 1 < s.len() {
            match find_from(s, i + 1, s.len() as int, ByteClass::Newline) {
                Some(q) => if q + 1 > i {
                    lemma_obj_lines_consistent(s, last, q + 1, st, lens)
                } else {
                    lens
                },
                None => lens,
            }
        } else {
            lens
        }
    } else if s[i] == 102 {
        let nv = verts.len() as u32;
        lemma_face_len(s, i + 2, s.len() as int, nv);
        match face_spec(s, i + 2, s.len() as int, nv) {
            Some((face, e)) => if e > i {
                let (m2, i2, s2) = add_face_spec(mode, idx, strides, face);
                lemma_add_face_consistent(mode, idx, strides, lens, face);
                lemma_obj_lines_consistent(s, last, e, (verts, m2, i2, s2), lens.push(face.len()))
            } else {
                lens
            },
            None => lens,
        }
    } else {
        match find_from(s, i, s.len() as int, ByteClass::Newline) {
            Some(q) => if q + 1 > i {
                lemma_obj_lines_consistent(s, last, q + 1, st, lens)
            } else {
                lens
            },
            None => lens,
        }
    }
}

/// The face law over the complete lines of a text.
proof fn lemma_obj_text_faces(s: Seq<u8>) -> (lens: Seq<nat>)
    ensures
        obj_text_spec(s) matches Some(r) ==> faces_consistent(r.1, r.2, r.3, lens),
{
    let e = Seq::<nat>::empty();
    assert(sum_lens(e) == 0);
    match rfind_newline(s, s.len() as int) {
        None => e,
        Some(last) => lemma_obj_lines_consistent(s, last, 0, obj_initial(), e),
    }
}

/// What an OBJ text gives: its lines are read, the last one too where it has no `\n`;
/// `None` where a line is malformed.
pub open spec fn load_obj_spec(s: Seq<u8>) -> Option<ObjState> {
    obj_text_spec(terminated(s))
}

/// Parses an OBJ text (see `obj_text`); a last line without `\n` is read as if it had one.
pub fn load_obj_buf(data: &[u8]) -> (r: Result<RawMesh, ()>)
    ensures
        mesh_matches(r, load_obj_spec(data@)),
        load_obj_spec(data@) matches Some(st) ==> faces_agree(st.1, st.2, st.3),
{
    let t = terminated_copy(data);
    obj_text(t.as_slice())
}

/// Every face an OBJ text gives has at least three vertices, and the faces' representation
/// agrees with them: the returned list of face lengths is one with which the mode, indices
/// and strides read are consistent (so `lemma_finish_faces` decodes the result into exactly
/// those faces).
pub proof fn lemma_obj_faces_consistent(s: Seq<u8>) -> (lens: Seq<nat>)
    ensures
        load_obj_spec(s) matches Some(r) ==> faces_consistent(r.1, r.2, r.3, lens),
{
    lemma_obj_text_faces(terminated(s))
}

proof fn lemma_obj_int_len(s: Seq<u8>, p: int, end: int, nv: u32)
    requires
        0 <= p,
        end <= s.len(),
    ensures
        obj_int_spec(s, p, end, nv) matches Some((_, l)) ==> 0 <= l && p + l <= end,
{
    if p < end {
        let st = if s[p] == 43 || s[p] == 45 {
            p + 1
        } else {
            p
        };
        lemma_find_from_range(s, st, end, ByteClass::NotDigit);
    }
}

/// The vertex a face index word at `w` names, `nv` vertices being read so far: a positive
/// index `k` names vertex `k - 1`, a negative index `-k` names vertex `nv - k` (both in
/// 32 bits that wrap); the index is the decimal value of the digits after the sign.
pub open spec fn obj_index_value(s: Seq<u8>, w: int, end: int, nv: u32) -> u32 {
    let neg = s[w] == 45;
    let st = if s[w] == 43 || neg {
        w + 1
    } else {
        w
    };
    let k = dec_acc(s, st, digits_end(s, st, end));
    if neg {
        vstd::wrapping::u32_specs::wrapping_sub(nv, k)
    } else {
        vstd::wrapping::u32_specs::wrapping_sub(k, 1)
    }
}

proof fn lemma_face_tail_words(s: Seq<u8>, d: int, end: int, nv: u32, acc: Seq<u32>) -> (ws: Seq<int>)
    requires
        0 <= d,
    ensures
        face_tail_spec(s, d, end, nv, acc) matches Some((f, _)) ==> {
            &&& f.len() == acc.len() + ws.len()
            &&& f.subrange(0, acc.len() as int) == acc
            &&& forall|m: int| 0 <= m < ws.len() ==> #[trigger] f[acc.len() + m] == obj_index_value(s, ws[m], end, nv)
            &&& forall|m: int| 0 <= m < ws.len() ==> d <= #[trigger] ws[m] < end
            &&& ws.len() > 0 ==> ws[0] == d
            &&& forall|m: int| 0 <= m < ws.len() - 1 ==> #[trigger] ws[m] < ws[m + 1]
        },
    decreases end - d,
{
    match obj_int_spec(s, d, end, nv) {
        None => {
            assert(acc.subrange(0, acc.len() as int) =~= acc);
            Seq::empty()
        },
        Some((v, l)) => {
            let acc2 = acc.push(v);
            assert(v == obj_index_value(s, d, end, nv));
            assert(acc2.subrange(0, acc.len() as int) =~= acc);
            let e = d + l;
            let one = seq![d];
            if e == end {
                one
            } else {
                let e1 = if s[e] == 47 {
                    find_from(s, e + 1, end, ByteClass::BelowBang)
                } else {
                    Some(e)
                };
                match e1 {
                    None => one,
                    Some(e1) => match find_from(s, e1, end, ByteClass::NotSpace) {
                        None => one,
                        Some(e2) => if s[e2] == 13 || s[e2] == 10 {
                            one
                        } else if e2 <= d || e2 > end {
                            one
                        } else {
                            let rest = lemma_face_tail_words(s, e2, end, nv, acc2);
                            let ws = one.add(rest);
                            if let Some((f, _)) = face_tail_spec(s, d, end, nv, acc) {
                                assert(f.subrange(0, acc2.len() as int) == acc2);
                                assert forall|j: int| 0 <= j < acc.len() implies f[j] == acc[j] by {
                                    assert(f.subrange(0, acc2.len() as int)[j] == acc2[j]);
                                }
                                assert(f.subrange(0, acc.len() as int) =~= acc);
                                assert(f[acc.len() as int] == v) by {
                                    assert(f.subrange(0, acc2.len() as int)[acc.len() as int] == acc2[acc.len() as int]);
                                }
                                assert forall|m: int| 0 <= m < ws.len() implies #[trigger] f[acc.len() + m]
                                    == obj_index_value(s, ws[m], end, nv) by {
                                    if m > 0 {
                                        let mm = m - 1;
                                        assert(ws[m] == rest[mm]);
                                        assert(f[acc2.len() + mm] == obj_index_value(s, rest[mm], end, nv));
                                    }
                                }
                                assert forall|m: int| 0 <= m < ws.len() implies d <= #[trigger] ws[m] < end by {
                                    if m > 0 {
                                        assert(ws[m] == rest[m - 1]);
                                    }
                                }
                                assert forall|m: int| 0 <= m < ws.len() - 1 implies #[trigger] ws[m] < ws[m + 1] by {
                                    if m > 0 {
                                        let mm = m - 1;
                                        assert(ws[m] == rest[mm]);
                                        assert(ws[m + 1] == rest[mm + 1]);
                                        assert(rest[mm] < rest[mm + 1]);
                                    } else {
                                        assert(ws[1] == rest[0]);
                                    }
                                }
                            }
                            ws
                        },
                    },
                }
            }
        },
    }
}

/// The indices of an OBJ face are the vertices its index words name, in order: the returned
/// `ws` holds where each word starts (in increasing order, the first at the first byte that
/// is no space from `fs`), and index `m` of the face is `obj_index_value` of word `m`.
pub proof fn lemma_obj_face_words(s: Seq<u8>, fs: int, end: int, nv: u32) -> (ws: Seq<int>)
    requires
        0 <= fs,
        end <= s.len(),
    ensures
        face_spec(s, fs, end, nv) matches Some((f, _)) ==> {
            &&& f.len() == ws.len()
            &&& forall|m: int| 0 <= m < ws.len() ==> #[trigger] f[m] == obj_index_value(s, ws[m], end, nv)
            &&& forall|m: int| 0 <= m < ws.len() - 1 ==> #[trigger] ws[m] < ws[m + 1]
            &&& ws.len() >= 3
            &&& ws[0] == find_from(s, fs, end, ByteClass::NotSpace)->0
            &&& forall|j: int| fs <= j < ws[0] ==> s[j] == 32
        },
{
    lemma_find_from(s, fs, end, ByteClass::NotSpace);
    match face_spec(s, fs, end, nv) {
        None => Seq::empty(),
        Some((f, _)) => {
            let a = find_from(s, fs, end, ByteClass::NotSpace)->0;
            let (f0, l0) = obj_int_spec(s, a, end, nv)->0;
            lemma_find_from_range(s, a, end, ByteClass::NotDigit);
            lemma_obj_int_len(s, a, end, nv);
            let b = find_from(s, a + l0, end, ByteClass::Space)->0;
            lemma_find_from_range(s, a + l0, end, ByteClass::Space);
            let c = find_from(s, b + 1, end, ByteClass::NotSpace)->0;
            lemma_find_from_range(s, b + 1, end, ByteClass::NotSpace);
            let (f1, l1) = obj_int_spec(s, c, end, nv)->0;
            lemma_obj_int_len(s, c, end, nv);
            let b2 = find_from(s, c + l1, end, ByteClass::Space)->0;
            lemma_find_from_range(s, c + l1, end, ByteClass::Space);
            let d = find_from(s, b2 + 1, end, ByteClass::NotSpace)->0;
            lemma_find_from_range(s, b2 + 1, end, ByteClass::NotSpace);
            let acc = seq![f0, f1];
            lemma_face_len(s, fs, end, nv);
            let rest = lemma_face_tail_words(s, d, end, nv, acc);
            assert(f0 == obj_index_value(s, a, end, nv));
            assert(f1 == obj_index_value(s, c, end, nv));
            let ws = seq![a, c].add(rest);
            assert(f[0] == f.subrange(0, 2)[0]);
            assert(f[1] == f.subrange(0, 2)[1]);
            assert forall|m: int| 0 <= m < ws.len() implies #[trigger] f[m] == obj_index_value(s, ws[m], end, nv) by {
                if m >= 2 {
                    let mm = m - 2;
                    assert(ws[m] == rest[mm]);
                    assert(f[acc.len() + mm] == obj_index_value(s, rest[mm], end, nv));
                }
            }
            assert forall|m: int| 0 <= m < ws.len() - 1 implies #[trigger] ws[m] < ws[m + 1] by {
                if m >= 2 {
                    let mm = m - 2;
                    assert(ws[m] == rest[mm]);
                    assert(ws[m + 1] == rest[mm + 1]);
                    assert(rest[mm] < rest[mm + 1]);
                } else if m == 1 {
                    assert(ws[2] == rest[0]);
                }
            }
            ws
        },
    }
}

} // verus!
