use vstd::prelude::*;
use crate::ply_body::{BodyInfos, BodyView, wadd};
use crate::ply_header::{Format, UselessElem, groups_view};
use crate::ply_types::{RawType, Type, binary_float_spec, binary_uint_spec, raw_len, skip_binary_spec};
use crate::scan::Coord;
use crate::surface::{FaceBuilder, FaceMode, FaceState, add_face_spec};
use crate::surface_laws::{faces_consistent, lemma_add_face_consistent, lemma_split_faces_push, split_faces, sum_lens};

verus! {

/// Skips the binary properties `types[k..]` from `pos`: the position after them, `Ok(None)`
/// where the bytes run out.
pub open spec fn skip_elem_spec(types: Seq<Type>, k: int, s: Seq<u8>, pos: int, end: int, be: bool) -> Result<Option<int>, ()>
    decreases types.len() - k,
{
    if k >= types.len() || k < 0 {
        Ok(Some(pos))
    } else {
        match skip_binary_spec(types[k], s, pos, end, be) {
            Err(_) => Err(()),
            Ok(None) => Ok(None),
            Ok(Some(sz)) => skip_elem_spec(types, k + 1, s, pos + sz, end, be),
        }
    }
}

/// The properties `k..` of a binary vertex from `pos`: position after them and coordinates.
pub open spec fn vertex_elem_spec(b: BodyView, k: int, s: Seq<u8>, pos: int, end: int, r: (Coord, Coord, Coord)) -> Result<Option<(int, (Coord, Coord, Coord))>, ()>
    decreases b.v_stride.len() - k,
{
    let be = b.format == Format::BigEndian;
    if k >= b.v_stride.len() || k < 0 {
        Ok(Some((pos, r)))
    } else if k == b.vx || k == b.vy || k == b.vz {
        match b.v_stride[k] {
            Type::List(_, _) => Err(()),
            Type::Single(t) => match binary_float_spec(t, s, pos, end, be) {
                None => Ok(None),
                Some(c) => {
                    let r2 = if k == b.vx {
                        (c, r.1, r.2)
                    } else if k == b.vy {
                        (r.0, c, r.2)
                    } else {
                        (r.0, r.1, c)
                    };
                    vertex_elem_spec(b, k + 1, s, pos + raw_len(t), end, r2)
                },
            },
        }
    } else {
        match skip_binary_spec(b.v_stride[k], s, pos, end, be) {
            Err(_) => Err(()),
            Ok(None) => Ok(None),
            Ok(Some(sz)) => vertex_elem_spec(b, k + 1, s, pos + sz, end, r),
        }
    }
}

/// `k` more list items of type `t` from `pos`.
pub open spec fn list_items_spec(t: RawType, s: Seq<u8>, pos: int, end: int, be: bool, k: nat, acc: Seq<u32>) -> Result<Option<(int, Seq<u32>)>, ()>
    decreases k,
{
    if k == 0 {
        Ok(Some((pos, acc)))
    } else {
        match binary_uint_spec(t, s, pos, end, be) {
            Err(_) => Err(()),
            Ok(None) => Ok(None),
            Ok(Some(v)) => list_items_spec(t, s, pos + raw_len(t), end, be, (k - 1) as nat, acc.push(v)),
        }
    }
}

/// The properties `k..` of a binary face from `pos`: position after them, the indices read and
/// the announced count.
pub open spec fn face_props_spec(b: BodyView, k: int, s: Seq<u8>, pos: int, end: int, face: Seq<u32>, flen: u32) -> Result<Option<(int, Seq<u32>, u32)>, ()>
    decreases b.i_stride.len() - k,
{
    let be = b.format == Format::BigEndian;
    if k >= b.i_stride.len() || k < 0 {
        Ok(Some((pos, face, flen)))
    } else if k == b.i_stride_i {
        match b.i_stride[k] {
            Type::Single(_) => Err(()),
            Type::List(t1, t2) => match binary_uint_spec(t1, s, pos, end, be) {
                Err(_) => Err(()),
                Ok(None) => Ok(None),
                Ok(Some(n)) => match list_items_spec(t2, s, pos + raw_len(t1), end, be, n as nat, face) {
                    Err(_) => Err(()),
                    Ok(None) => Ok(None),
                    Ok(Some((p2, f2))) => face_props_spec(b, k + 1, s, p2, end, f2, n),
                },
            },
        }
    } else {
        match skip_binary_spec(b.i_stride[k], s, pos, end, be) {
            Err(_) => Err(()),
            Ok(None) => Ok(None),
            Ok(Some(sz)) => face_props_spec(b, k + 1, s, pos + sz, end, face, flen),
        }
    }
}

/// A binary face element at `pos`: position after it and its indices. A face of fewer than
/// three vertices is an error.
pub open spec fn face_elem_spec(b: BodyView, s: Seq<u8>, pos: int, end: int) -> Result<Option<(int, Seq<u32>)>, ()> {
    match face_props_spec(b, 0, s, pos, end, Seq::empty(), 0) {
        Err(_) => Err(()),
        Ok(None) => Ok(None),
        Ok(Some((p, f, flen))) => if flen < 3 {
            Err(())
        } else {
            Ok(Some((p, f)))
        },
    }
}

/// Which elements a run reads.
#[derive(Clone, Copy, PartialEq, Eq, Structural)]
pub enum RunKind {
    Skip,
    Vertex,
    Face,
}

/// The state of a binary body read: position, elements read, vertices, faces.
pub type BinState = (int, nat, Seq<[Coord; 3]>, FaceState);

pub open spec fn zero3() -> (Coord, Coord, Coord) {
    (Coord::Unsigned(0), Coord::Unsigned(0), Coord::Unsigned(0))
}

/// Reads elements while fewer than `n_tot` have been read in all: `(ran_out, state)`.
pub open spec fn elem_run_spec(kind: RunKind, types: Seq<Type>, s: Seq<u8>, end: int, b: BodyView, n_tot: u32, st: BinState) -> Result<(bool, BinState), ()>
    decreases n_tot - st.1,
{
    let (pos, n, verts, fs) = st;
    let be = b.format == Format::BigEndian;
    if n >= n_tot {
        Ok((false, st))
    } else {
        match kind {
            RunKind::Skip => match skip_elem_spec(types, 0, s, pos, end, be) {
                Err(_) => Err(()),
                Ok(None) => Ok((true, st)),
                Ok(Some(p2)) => elem_run_spec(kind, types, s, end, b, n_tot, (p2, n + 1, verts, fs)),
            },
            RunKind::Vertex => match vertex_elem_spec(b, 0, s, pos, end, zero3()) {
                Err(_) => Err(()),
                Ok(None) => Ok((true, st)),
                Ok(Some((p2, r))) => elem_run_spec(
                    kind,
                    types,
                    s,
                    end,
                    b,
                    n_tot,
                    (p2, n + 1, verts.push([r.0, r.1, r.2]), fs),
                ),
            },
            RunKind::Face => match face_elem_spec(b, s, pos, end) {
                Err(_) => Err(()),
                Ok(None) => Ok((true, st)),
                Ok(Some((p2, f))) => elem_run_spec(
                    kind,
                    types,
                    s,
                    end,
                    b,
                    n_tot,
                    (p2, n + 1, verts, add_face_spec(fs.0, fs.1, fs.2, f)),
                ),
            },
        }
    }
}

/// The elements of the groups `g[k..]` that the reader skips, the running total growing by
/// each group's count: `(ran_out, total, state)`.
pub open spec fn groups_run_spec(g: Seq<(u32, Seq<Type>)>, k: int, s: Seq<u8>, end: int, b: BodyView, n_tot: u32, st: BinState) -> Result<(bool, u32, BinState), ()>
    decreases g.len() - k,
{
    if k >= g.len() || k < 0 {
        Ok((false, n_tot, st))
    } else {
        let nt = wadd(n_tot, g[k].0);
        match elem_run_spec(RunKind::Skip, g[k].1, s, end, b, nt, st) {
            Err(_) => Err(()),
            Ok((true, st2)) => Ok((true, nt, st2)),
            Ok((false, st2)) => groups_run_spec(g, k + 1, s, end, b, nt, st2),
        }
    }
}

/// A binary body from `pos`: the skipped elements before, the vertices or faces (whichever
/// the header declared first), the skipped elements between, then the others. Vertices are
/// counted by the vertex count, faces by the face count. `Ok((done, state))`, `done` false
/// where the bytes ran out first; the state holds the position after the last complete
/// element, the number of elements read, the vertices and the faces.
pub open spec fn binary_body_spec(s: Seq<u8>, end: int, pos: int, b: BodyView) -> Result<(bool, BinState), ()> {
    let st0: BinState = (pos, 0, Seq::empty(), (FaceMode::Undetermined, Seq::empty(), Seq::empty()));
    let (k1, c1, k2, c2) = if b.v_first {
        (RunKind::Vertex, b.nv, RunKind::Face, b.nf)
    } else {
        (RunKind::Face, b.nf, RunKind::Vertex, b.nv)
    };
    match groups_run_spec(b.before, 0, s, end, b, 0, st0) {
        Err(_) => Err(()),
        Ok((true, _, st)) => Ok((false, st)),
        Ok((false, nt, st)) => {
            let nt1 = wadd(nt, c1);
            match elem_run_spec(k1, Seq::empty(), s, end, b, nt1, st) {
                Err(_) => Err(()),
                Ok((true, st)) => Ok((false, st)),
                Ok((false, st)) => match groups_run_spec(b.between, 0, s, end, b, nt1, st) {
                    Err(_) => Err(()),
                    Ok((true, _, st)) => Ok((false, st)),
                    Ok((false, nt2, st)) => {
                        let nt3 = wadd(nt2, c2);
                        match elem_run_spec(k2, Seq::empty(), s, end, b, nt3, st) {
                            Err(_) => Err(()),
                            Ok((true, st)) => Ok((false, st)),
                            Ok((false, st)) => Ok((true, st)),
                        }
                    },
                },
            }
        },
    }
}

} // verus!

verus! {

/// Skips one element whose properties have the given types.
pub fn skip_elem_binary(data: &[u8], end: usize, types: &Vec<Type>, pos0: usize, be: bool) -> (r: Result<Option<usize>, ()>)
    requires
        pos0 <= end <= data.len(),
    ensures
        match skip_elem_spec(types@, 0, data@, pos0 as int, end as int, be) {
            Err(_) => r is Err,
            Ok(None) => r == Ok::<Option<usize>, ()>(None),
            Ok(Some(p)) => r == Ok::<Option<usize>, ()>(Some(p as usize)) && pos0 <= p <= end,
        },
{
    let ghost goal = skip_elem_spec(types@, 0, data@, pos0 as int, end as int, be);
    let mut pos = pos0;
    let mut k: usize = 0;
    while k < types.len()
        invariant
            pos0 <= pos <= end <= data.len(),
            k <= types@.len(),
            goal == skip_elem_spec(types@, k as int, data@, pos as int, end as int, be),
            goal == skip_elem_spec(types@, 0, data@, pos0 as int, end as int, be),
        decreases types@.len() - k,
    {
        match types[k].skip_binary(data, pos, end, be)? {
            None => {
                return Ok(None);
            },
            Some(sz) => {
                pos = pos + sz;
            },
        }
        k = k + 1;
    }
    Ok(Some(pos))
}

/// Reads one binary vertex element.
pub fn parse_vertex_binary(data: &[u8], end: usize, b: &BodyInfos, pos0: usize) -> (r: Result<Option<(usize, [Coord; 3])>, ()>)
    requires
        pos0 <= end <= data.len(),
    ensures
        match vertex_elem_spec(b@, 0, data@, pos0 as int, end as int, zero3()) {
            Err(_) => r is Err,
            Ok(None) => r matches Ok(None),
            Ok(Some((p, c))) => r matches Ok(Some((p2, c2))) && p2 == p && c2 == [c.0, c.1, c.2] && p2 <= end,
        },
{
    let be = match b.format {
        Format::BigEndian => true,
        _ => false,
    };
    let ghost goal = vertex_elem_spec(b@, 0, data@, pos0 as int, end as int, zero3());
    let mut x = Coord::Unsigned(0);
    let mut y = Coord::Unsigned(0);
    let mut z = Coord::Unsigned(0);
    let mut pos = pos0;
    let mut k: usize = 0;
    while k < b.v_stride.len()
        invariant
            pos <= end <= data.len(),
            k <= b.v_stride@.len(),
            be == (b@.format == Format::BigEndian),
            goal == vertex_elem_spec(b@, k as int, data@, pos as int, end as int, (x, y, z)),
            goal == vertex_elem_spec(b@, 0, data@, pos0 as int, end as int, zero3()),
        decreases b.v_stride@.len() - k,
    {
        if k == b.v_x_stride_i as usize || k == b.v_y_stride_i as usize || k == b.v_z_stride_i as usize {
            match b.v_stride[k] {
                Type::List(_, _) => {
                    return Err(());
                },
                Type::Single(t) => {
                    let c = match t.parse_binary_float(data, pos, end, be) {
                        None => {
                            return Ok(None);
                        },
                        Some(c) => c,
                    };
                    if k == b.v_x_stride_i as usize {
                        x = c;
                    } else if k == b.v_y_stride_i as usize {
                        y = c;
                    } else {
                        z = c;
                    }
                    pos = pos + t.len() as usize;
                },
            }
        } else {
            match b.v_stride[k].skip_binary(data, pos, end, be)? {
                None => {
                    return Ok(None);
                },
                Some(sz) => {
                    pos = pos + sz;
                },
            }
        }
        k = k + 1;
    }
    Ok(Some((pos, [x, y, z])))
}

/// Reads `n` list items of type `t`, appending them to `face`.
fn list_items(data: &[u8], end: usize, t: RawType, pos0: usize, be: bool, n: u32, face: &mut Vec<u32>) -> (r: Result<Option<usize>, ()>)
    requires
        pos0 <= end <= data.len(),
    ensures
        match list_items_spec(t, data@, pos0 as int, end as int, be, n as nat, old(face)@) {
            Err(_) => r is Err,
            Ok(None) => r == Ok::<Option<usize>, ()>(None),
            Ok(Some((p, f))) => r == Ok::<Option<usize>, ()>(Some(p as usize)) && final(face)@ == f && pos0 <= p <= end,
        },
{
    let ghost goal = list_items_spec(t, data@, pos0 as int, end as int, be, n as nat, face@);
    let mut pos = pos0;
    let mut k = n;
    while k > 0
        invariant
            pos0 <= pos <= end <= data.len(),
            goal == list_items_spec(t, data@, pos as int, end as int, be, k as nat, face@),
            goal == list_items_spec(t, data@, pos0 as int, end as int, be, n as nat, old(face)@),
        decreases k,
    {
        match t.parse_binary_uint(data, pos, end, be)? {
            None => {
                return Ok(None);
            },
            Some(v) => {
                face.push(v);
                pos = pos + t.len() as usize;
            },
        }
        k = k - 1;
    }
    Ok(Some(pos))
}

/// Reads one binary face element.
pub fn parse_face_binary(data: &[u8], end: usize, b: &BodyInfos, pos0: usize) -> (r: Result<Option<(usize, Vec<u32>)>, ()>)
    requires
        pos0 <= end <= data.len(),
    ensures
        match face_elem_spec(b@, data@, pos0 as int, end as int) {
            Err(_) => r is Err,
            Ok(None) => r matches Ok(None),
            Ok(Some((p, f))) => r matches Ok(Some((p2, f2))) && p2 == p && f2@ == f && p2 <= end,
        },
        r matches Ok(Some((_, f))) ==> f@.len() >= 3,
{
    proof {
        lemma_face_elem_len(b@, data@, pos0 as int, end as int);
    }
    let be = match b.format {
        Format::BigEndian => true,
        _ => false,
    };
    let ghost goal = face_props_spec(b@, 0, data@, pos0 as int, end as int, Seq::empty(), 0);
    let mut face: Vec<u32> = Vec::new();
    let mut flen: u32 = 0;
    let mut pos = pos0;
    let mut k: usize = 0;
    while k < b.i_stride.len()
        invariant
            pos <= end <= data.len(),
            k <= b.i_stride@.len(),
            be == (b@.format == Format::BigEndian),
            goal == face_props_spec(b@, k as int, data@, pos as int, end as int, face@, flen),
            goal == face_props_spec(b@, 0, data@, pos0 as int, end as int, Seq::empty(), 0),
        decreases b.i_stride@.len() - k,
    {
        if k == b.i_stride_i as usize {
            match b.i_stride[k] {
                Type::Single(_) => {
                    return Err(());
                },
                Type::List(t1, t2) => {
                    let n = match t1.parse_binary_uint(data, pos, end, be)? {
                        None => {
                            return Ok(None);
                        },
                        Some(n) => n,
                    };
                    let p1 = pos + t1.len() as usize;
                    match list_items(data, end, t2, p1, be, n, &mut face)? {
                        None => {
                            return Ok(None);
                        },
                        Some(p2) => {
                            pos = p2;
                        },
                    }
                    flen = n;
                },
            }
        } else {
            match b.i_stride[k].skip_binary(data, pos, end, be)? {
                None => {
                    return Ok(None);
                },
                Some(sz) => {
                    pos = pos + sz;
                },
            }
        }
        k = k + 1;
    }
    if flen < 3 {
        return Err(());
    }
    Ok(Some((pos, face)))
}

} // verus!

verus! {

/// Reads elements of the given kind while fewer than `n_tot` elements have been read in all.
fn run_elems(
    data: &[u8],
    end: usize,
    b: &BodyInfos,
    kind: RunKind,
    types: &Vec<Type>,
    n_tot: u32,
    pos0: usize,
    n0: u64,
    vertices: &mut Vec<[Coord; 3]>,
    faces: &mut FaceBuilder,
) -> (r: Result<(bool, usize, u64), ()>)
    requires
        pos0 <= end <= data.len(),
        n0 <= u32::MAX,
    ensures
        match elem_run_spec(kind, types@, data@, end as int, b@, n_tot, (pos0 as int, n0 as nat, old(vertices)@, old(faces).state())) {
            Err(_) => r is Err,
            Ok((ro, st)) => r matches Ok((ro2, p2, n2)) && ro2 == ro && p2 == st.0 && n2 == st.1
                && final(vertices)@ == st.2 && final(faces).state() == st.3 && p2 <= end && n2 <= u32::MAX,
        },
{
    let be = match b.format {
        Format::BigEndian => true,
        _ => false,
    };
    let ghost goal = elem_run_spec(kind, types@, data@, end as int, b@, n_tot, (pos0 as int, n0 as nat, vertices@, faces.state()));
    let mut pos = pos0;
    let mut n = n0;
    loop
        invariant
            pos <= end <= data.len(),
            n <= u32::MAX,
            be == (b@.format == Format::BigEndian),
            goal == elem_run_spec(kind, types@, data@, end as int, b@, n_tot, (pos as int, n as nat, vertices@, faces.state())),
            goal == elem_run_spec(kind, types@, data@, end as int, b@, n_tot, (pos0 as int, n0 as nat, old(vertices)@, old(faces).state())),
        decreases n_tot - n,
    {
        if n >= n_tot as u64 {
            return Ok((false, pos, n));
        }
        match kind {
            RunKind::Skip => {
                match skip_elem_binary(data, end, types, pos, be)? {
                    None => {
                        return Ok((true, pos, n));
                    },
                    Some(p2) => {
                        pos = p2;
                    },
                }
            },
            RunKind::Vertex => {
                match parse_vertex_binary(data, end, b, pos)? {
                    None => {
                        return Ok((true, pos, n));
                    },
                    Some((p2, c)) => {
                        vertices.push(c);
                        pos = p2;
                    },
                }
            },
            RunKind::Face => {
                match parse_face_binary(data, end, b, pos)? {
                    None => {
                        return Ok((true, pos, n));
                    },
                    Some((p2, f)) => {
                        faces.add_face(&f);
                        pos = p2;
                    },
                }
            },
        }
        n = n + 1;
    }
}

/// Reads the elements of the skipped groups `groups[k..]`.
fn run_groups(
    data: &[u8],
    end: usize,
    b: &BodyInfos,
    groups: &Vec<UselessElem>,
    n_tot0: u32,
    pos0: usize,
    n0: u64,
    vertices: &mut Vec<[Coord; 3]>,
    faces: &mut FaceBuilder,
) -> (r: Result<(bool, u32, usize, u64), ()>)
    requires
        pos0 <= end <= data.len(),
        n0 <= u32::MAX,
    ensures
        match groups_run_spec(groups_view(groups@), 0, data@, end as int, b@, n_tot0, (pos0 as int, n0 as nat, old(vertices)@, old(faces).state())) {
            Err(_) => r is Err,
            Ok((ro, nt, st)) => r matches Ok((ro2, nt2, p2, n2)) && ro2 == ro && nt2 == nt && p2 == st.0 && n2 == st.1
                && final(vertices)@ == st.2 && final(faces).state() == st.3 && p2 <= end && n2 <= u32::MAX,
        },
{
    let ghost g = groups_view(groups@);
    let ghost goal = groups_run_spec(g, 0, data@, end as int, b@, n_tot0, (pos0 as int, n0 as nat, vertices@, faces.state()));
    let mut pos = pos0;
    let mut n = n0;
    let mut n_tot = n_tot0;
    let mut k: usize = 0;
    while k < groups.len()
        invariant
            pos <= end <= data.len(),
            n <= u32::MAX,
            k <= groups@.len(),
            g == groups_view(groups@),
            goal == groups_run_spec(g, k as int, data@, end as int, b@, n_tot, (pos as int, n as nat, vertices@, faces.state())),
            goal == groups_run_spec(g, 0, data@, end as int, b@, n_tot0, (pos0 as int, n0 as nat, old(vertices)@, old(faces).state())),
        decreases groups@.len() - k,
    {
        n_tot = n_tot.wrapping_add(groups[k].count);
        let (ro, p2, n2) = run_elems(data, end, b, RunKind::Skip, &groups[k].types, n_tot, pos, n, vertices, faces)?;
        pos = p2;
        n = n2;
        if ro {
            return Ok((true, n_tot, pos, n));
        }
        k = k + 1;
    }
    Ok((false, n_tot, pos, n))
}

/// Reads a binary body from `p0`, as `binary_body_spec` says.
/// `Ok((done, vertices, faces, pos, n))`: `done` false where the bytes ran out first, `pos`
/// the position after the last complete element and `n` the number of elements read, the
/// skipped ones included.
pub fn parse_binary(data: &[u8], end: usize, p0: usize, b: &BodyInfos) -> (r: Result<
    (bool, Vec<[Coord; 3]>, FaceBuilder, usize, u64),
    (),
>)
    requires
        p0 <= end <= data.len(),
    ensures
        match binary_body_spec(data@, end as int, p0 as int, b@) {
            Err(_) => r is Err,
            Ok((d, st)) => r matches Ok((d2, v2, f2, p2, n2)) && d2 == d && v2@ == st.2 && f2.state() == st.3
                && p2 == st.0 && n2 == st.1,
        },
{
    let mut vertices: Vec<[Coord; 3]> = Vec::new();
    let mut faces = FaceBuilder::new();
    let empty: Vec<Type> = Vec::new();
    let (k1, c1, k2, c2) = if b.v_first_over_f {
        (RunKind::Vertex, b.nv, RunKind::Face, b.nf)
    } else {
        (RunKind::Face, b.nf, RunKind::Vertex, b.nv)
    };
    assert(empty@ == Seq::<Type>::empty());
    let (ro, nt, pos, n) = run_groups(data, end, b, &b.useless_before, 0, p0, 0, &mut vertices, &mut faces)?;
    if ro {
        return Ok((false, vertices, faces, pos, n));
    }
    let nt1 = nt.wrapping_add(c1);
    let (ro, pos, n) = run_elems(data, end, b, k1, &empty, nt1, pos, n, &mut vertices, &mut faces)?;
    if ro {
        return Ok((false, vertices, faces, pos, n));
    }
    let (ro, nt2, pos, n) = run_groups(data, end, b, &b.useless_between, nt1, pos, n, &mut vertices, &mut faces)?;
    if ro {
        return Ok((false, vertices, faces, pos, n));
    }
    let nt3 = nt2.wrapping_add(c2);
    let (ro, pos, n) = run_elems(data, end, b, k2, &empty, nt3, pos, n, &mut vertices, &mut faces)?;
    if ro {
        return Ok((false, vertices, faces, pos, n));
    }
    Ok((true, vertices, faces, pos, n))
}

} // verus!

verus! {

proof fn lemma_list_items_len(t: RawType, s: Seq<u8>, pos: int, end: int, be: bool, k: nat, acc: Seq<u32>)
    ensures
        list_items_spec(t, s, pos, end, be, k, acc) matches Ok(Some((_, f))) ==> f.len() == acc.len() + k,
    decreases k,
{
    if k > 0 {
        if let Ok(Some(v)) = binary_uint_spec(t, s, pos, end, be) {
            lemma_list_items_len(t, s, pos + raw_len(t), end, be, (k - 1) as nat, acc.push(v));
        }
    }
}

proof fn lemma_face_props_len(b: BodyView, k: int, s: Seq<u8>, pos: int, end: int, face: Seq<u32>, flen: u32)
    requires
        face.len() == flen,
        k <= b.i_stride_i ==> face.len() == 0,
    ensures
        face_props_spec(b, k, s, pos, end, face, flen) matches Ok(Some((_, f, n))) ==> f.len() == n,
    decreases b.i_stride.len() - k,
{
    let be = b.format == Format::BigEndian;
    if k < b.i_stride.len() && k >= 0 {
        if k == b.i_stride_i {
            if let Type::List(t1, t2) = b.i_stride[k] {
                if let Ok(Some(n)) = binary_uint_spec(t1, s, pos, end, be) {
                    lemma_list_items_len(t2, s, pos + raw_len(t1), end, be, n as nat, face);
                    if let Ok(Some((p2, f2))) = list_items_spec(t2, s, pos + raw_len(t1), end, be, n as nat, face) {
                        lemma_face_props_len(b, k + 1, s, p2, end, f2, n);
                    }
                }
            }
        } else if let Ok(Some(sz)) = skip_binary_spec(b.i_stride[k], s, pos, end, be) {
            lemma_face_props_len(b, k + 1, s, pos + sz, end, face, flen);
        }
    }
}

proof fn lemma_face_elem_len(b: BodyView, s: Seq<u8>, pos: int, end: int)
    ensures
        face_elem_spec(b, s, pos, end) matches Ok(Some((_, f))) ==> f.len() >= 3,
{
    lemma_face_props_len(b, 0, s, pos, end, Seq::empty(), 0);
}

proof fn lemma_elem_run_consistent(
    kind: RunKind,
    types: Seq<Type>,
    s: Seq<u8>,
    end: int,
    b: BodyView,
    n_tot: u32,
    st: BinState,
    lens: Seq<nat>,
) -> (lens2: Seq<nat>)
    requires
        faces_consistent(st.3.0, st.3.1, st.3.2, lens),
    ensures
        elem_run_spec(kind, types, s, end, b, n_tot, st) matches Ok((_, r)) ==> faces_consistent(
            r.3.0,
            r.3.1,
            r.3.2,
            lens2,
        ),
    decreases n_tot - st.1,
{
    let (pos, n, verts, fs) = st;
    let be = b.format == Format::BigEndian;
    if n >= n_tot {
        lens
    } else {
        match kind {
            RunKind::Skip => match skip_elem_spec(types, 0, s, pos, end, be) {
                Ok(Some(p2)) => lemma_elem_run_consistent(kind, types, s, end, b, n_tot, (p2, n + 1, verts, fs), lens),
                _ => lens,
            },
            RunKind::Vertex => match vertex_elem_spec(b, 0, s, pos, end, zero3()) {
                Ok(Some((p2, r))) => lemma_elem_run_consistent(
                    kind,
                    types,
                    s,
                    end,
                    b,
                    n_tot,
                    (p2, n + 1, verts.push([r.0, r.1, r.2]), fs),
                    lens,
                ),
                _ => lens,
            },
            RunKind::Face => {
                lemma_face_elem_len(b, s, pos, end);
                match face_elem_spec(b, s, pos, end) {
                    Ok(Some((p2, f))) => {
                        lemma_add_face_consistent(fs.0, fs.1, fs.2, lens, f);
                        lemma_elem_run_consistent(
                            kind,
                            types,
                            s,
                            end,
                            b,
                            n_tot,
                            (p2, n + 1, verts, add_face_spec(fs.0, fs.1, fs.2, f)),
                            lens.push(f.len()),
                        )
                    },
                    _ => lens,
                }
            },
        }
    }
}

proof fn lemma_groups_run_consistent(
    g: Seq<(u32, Seq<Type>)>,
    k: int,
    s: Seq<u8>,
    end: int,
    b: BodyView,
    n_tot: u32,
    st: BinState,
    lens: Seq<nat>,
) -> (lens2: Seq<nat>)
    requires
        faces_consistent(st.3.0, st.3.1, st.3.2, lens),
    ensures
        groups_run_spec(g, k, s, end, b, n_tot, st) matches Ok((_, _, r)) ==> faces_consistent(
            r.3.0,
            r.3.1,
            r.3.2,
            lens2,
        ),
    decreases g.len() - k,
{
    if k >= g.len() || k < 0 {
        lens
    } else {
        let nt = wadd(n_tot, g[k].0);
        let l1 = lemma_elem_run_consistent(RunKind::Skip, g[k].1, s, end, b, nt, st, lens);
        match elem_run_spec(RunKind::Skip, g[k].1, s, end, b, nt, st) {
            Ok((false, st2)) => lemma_groups_run_consistent(g, k + 1, s, end, b, nt, st2, l1),
            _ => l1,
        }
    }
}

/// Every face a binary PLY body gives has at least three vertices (a shorter one is an
/// error), and the faces' representation agrees with them: the returned list of face lengths
/// is one with which the mode, indices and strides read are consistent.
pub proof fn lemma_binary_body_faces_consistent(s: Seq<u8>, end: int, pos: int, b: BodyView) -> (lens: Seq<nat>)
    ensures
        binary_body_spec(s, end, pos, b) matches Ok((_, st)) ==> faces_consistent(st.3.0, st.3.1, st.3.2, lens),
{
    let e = Seq::<nat>::empty();
    assert(sum_lens(e) == 0);
    let st0: BinState = (pos, 0, Seq::empty(), (FaceMode::Undetermined, Seq::empty(), Seq::empty()));
    let (k1, c1, k2, c2) = if b.v_first {
        (RunKind::Vertex, b.nv, RunKind::Face, b.nf)
    } else {
        (RunKind::Face, b.nf, RunKind::Vertex, b.nv)
    };
    let l0 = lemma_groups_run_consistent(b.before, 0, s, end, b, 0, st0, e);
    match groups_run_spec(b.before, 0, s, end, b, 0, st0) {
        Ok((false, nt, st)) => {
            let nt1 = wadd(nt, c1);
            let l1 = lemma_elem_run_consistent(k1, Seq::empty(), s, end, b, nt1, st, l0);
            match elem_run_spec(k1, Seq::empty(), s, end, b, nt1, st) {
                Ok((false, st)) => {
                    let l2 = lemma_groups_run_consistent(b.between, 0, s, end, b, nt1, st, l1);
                    match groups_run_spec(b.between, 0, s, end, b, nt1, st) {
                        Ok((false, nt2, st)) => {
                            let nt3 = wadd(nt2, c2);
                            lemma_elem_run_consistent(k2, Seq::empty(), s, end, b, nt3, st, l2)
                        },
                        _ => l2,
                    }
                },
                _ => l1,
            }
        },
        _ => l0,
    }
}

/// Recording a face element that `parse_face_binary` reads (through `FaceBuilder::add_face`)
/// keeps the faces' state in agreement with the faces read: the face has at least three
/// vertices, the state afterwards is consistent with the lengths read followed by its length,
/// and the faces it describes are those before followed by this one.
pub proof fn lemma_face_binary_record(
    b: BodyView,
    s: Seq<u8>,
    pos: int,
    end: int,
    mode: FaceMode,
    indices: Seq<u32>,
    strides: Seq<u8>,
    lens: Seq<nat>,
)
    requires
        faces_consistent(mode, indices, strides, lens),
    ensures
        face_elem_spec(b, s, pos, end) matches Ok(Some((_, f))) ==> {
            let (m, i, st) = add_face_spec(mode, indices, strides, f);
            &&& f.len() >= 3
            &&& faces_consistent(m, i, st, lens.push(f.len()))
            &&& split_faces(i, lens.push(f.len())) == split_faces(indices, lens).push(f)
        },
{
    lemma_face_elem_len(b, s, pos, end);
    if let Ok(Some((_, f))) = face_elem_spec(b, s, pos, end) {
        lemma_add_face_consistent(mode, indices, strides, lens, f);
        lemma_split_faces_push(indices, lens, f);
    }
}

/// The bytes that the properties `types[0..k]` take, each scalar by its type's size (a list
/// counts for nothing here: the layout law below is for scalar properties).
pub open spec fn scalars_size(types: Seq<Type>, k: int) -> int
    decreases k,
{
    if k <= 0 {
        0
    } else {
        scalars_size(types, k - 1) + match types[k - 1] {
            Type::Single(t) => raw_len(t) as int,
            Type::List(_, _) => 0int,
        }
    }
}

/// The scalar type of a property.
pub open spec fn scalar_type(t: Type) -> RawType {
    match t {
        Type::Single(r) => r,
        Type::List(_, r) => r,
    }
}

/// The value of vertex property `c`, decoded at its byte offset in the element at `pos`.
pub open spec fn vertex_prop_at(b: BodyView, s: Seq<u8>, pos: int, end: int, c: int) -> Option<Coord> {
    binary_float_spec(
        scalar_type(b.v_stride[c]),
        s,
        pos + scalars_size(b.v_stride, c),
        end,
        b.format == Format::BigEndian,
    )
}

proof fn lemma_vertex_props_from(b: BodyView, k: int, s: Seq<u8>, pos0: int, end: int, r: (Coord, Coord, Coord))
    requires
        forall|j: int| 0 <= j < b.v_stride.len() ==> #[trigger] b.v_stride[j] is Single,
        b.vx < b.v_stride.len(),
        b.vy < b.v_stride.len(),
        b.vz < b.v_stride.len(),
        b.vx != b.vy,
        b.vx != b.vz,
        b.vy != b.vz,
        0 <= k <= b.v_stride.len(),
        b.vx < k ==> vertex_prop_at(b, s, pos0, end, b.vx as int) == Some(r.0),
        b.vy < k ==> vertex_prop_at(b, s, pos0, end, b.vy as int) == Some(r.1),
        b.vz < k ==> vertex_prop_at(b, s, pos0, end, b.vz as int) == Some(r.2),
    ensures
        vertex_elem_spec(b, k, s, pos0 + scalars_size(b.v_stride, k), end, r) matches Ok(Some((p, r2))) ==> {
            &&& p == pos0 + scalars_size(b.v_stride, b.v_stride.len() as int)
            &&& vertex_prop_at(b, s, pos0, end, b.vx as int) == Some(r2.0)
            &&& vertex_prop_at(b, s, pos0, end, b.vy as int) == Some(r2.1)
            &&& vertex_prop_at(b, s, pos0, end, b.vz as int) == Some(r2.2)
        },
    decreases b.v_stride.len() - k,
{
    let be = b.format == Format::BigEndian;
    let pos = pos0 + scalars_size(b.v_stride, k);
    if k < b.v_stride.len() {
        assert(b.v_stride[k] is Single);
        let t = scalar_type(b.v_stride[k]);
        assert(scalars_size(b.v_stride, k + 1) == scalars_size(b.v_stride, k) + raw_len(t));
        if k == b.vx || k == b.vy || k == b.vz {
            if let Some(c) = binary_float_spec(t, s, pos, end, be) {
                let r2 = if k == b.vx {
                    (c, r.1, r.2)
                } else if k == b.vy {
                    (r.0, c, r.2)
                } else {
                    (r.0, r.1, c)
                };
                lemma_vertex_props_from(b, k + 1, s, pos0, end, r2);
            }
        } else {
            lemma_vertex_props_from(b, k + 1, s, pos0, end, r);
        }
    }
}

/// The layout of a binary vertex element whose properties are all scalars, with distinct
/// x, y and z properties: its coordinates are the values decoded at the byte offsets of the
/// properties declared `x`, `y` and `z` (the sum of the sizes of the properties before each),
/// in that order, and the element ends after all its properties.
pub proof fn lemma_vertex_binary_layout(b: BodyView, s: Seq<u8>, pos: int, end: int)
    requires
        forall|j: int| 0 <= j < b.v_stride.len() ==> #[trigger] b.v_stride[j] is Single,
        b.vx < b.v_stride.len(),
        b.vy < b.v_stride.len(),
        b.vz < b.v_stride.len(),
        b.vx != b.vy,
        b.vx != b.vz,
        b.vy != b.vz,
    ensures
        vertex_elem_spec(b, 0, s, pos, end, zero3()) matches Ok(Some((p, r))) ==> {
            &&& p == pos + scalars_size(b.v_stride, b.v_stride.len() as int)
            &&& vertex_prop_at(b, s, pos, end, b.vx as int) == Some(r.0)
            &&& vertex_prop_at(b, s, pos, end, b.vy as int) == Some(r.1)
            &&& vertex_prop_at(b, s, pos, end, b.vz as int) == Some(r.2)
        },
{
    lemma_vertex_props_from(b, 0, s, pos, end, zero3());
}

proof fn lemma_list_items_values(t: RawType, s: Seq<u8>, q: int, end: int, be: bool, k: nat, acc: Seq<u32>)
    ensures
        list_items_spec(t, s, q, end, be, k, acc) matches Ok(Some((_, f))) ==> {
            &&& f.len() == acc.len() + k
            &&& forall|j: int| 0 <= j < acc.len() ==> #[trigger] f[j] == acc[j]
            &&& forall|m: int|
                0 <= m < k ==> binary_uint_spec(t, s, q + m * raw_len(t), end, be) == Ok::<Option<u32>, ()>(
                    Some(#[trigger] f[acc.len() + m]),
                )
        },
    decreases k,
{
    if k > 0 {
        if let Ok(Some(v)) = binary_uint_spec(t, s, q, end, be) {
            let acc2 = acc.push(v);
            lemma_list_items_values(t, s, q + raw_len(t), end, be, (k - 1) as nat, acc2);
            if let Ok(Some((_, f))) = list_items_spec(t, s, q, end, be, k, acc) {
                assert forall|j: int| 0 <= j < acc.len() implies #[trigger] f[j] == acc[j] by {
                    assert(f[j] == acc2[j]);
                }
                assert forall|m: int| 0 <= m < k implies binary_uint_spec(t, s, q + m * raw_len(t), end, be)
                    == Ok::<Option<u32>, ()>(Some(#[trigger] f[acc.len() + m])) by {
                    if m == 0 {
                        assert(f[acc.len() as int] == acc2[acc.len() as int]);
                    } else {
                        let mm = m - 1;
                        assert(q + raw_len(t) + mm * raw_len(t) == q + m * raw_len(t)) by (nonlinear_arith)
                            requires
                                mm == m - 1,
                        ;
                        assert(f[acc2.len() + mm] == f[acc.len() + m]);
                    }
                }
            }
        }
    }
}

/// Where the index list of a face element at `pos` starts, the properties before it being
/// scalars.
pub open spec fn face_list_at(b: BodyView, pos: int) -> int {
    pos + scalars_size(b.i_stride, b.i_stride_i as int)
}

proof fn lemma_face_props_layout(b: BodyView, k: int, s: Seq<u8>, pos0: int, end: int, face: Seq<u32>, flen: u32)
    requires
        b.i_stride_i < b.i_stride.len(),
        b.i_stride[b.i_stride_i as int] is List,
        forall|j: int| 0 <= j < b.i_stride.len() && j != b.i_stride_i ==> #[trigger] b.i_stride[j] is Single,
        0 <= k <= b.i_stride_i,
        face.len() == 0,
    ensures
        face_props_spec(b, k, s, pos0 + scalars_size(b.i_stride, k), end, face, flen) matches Ok(Some((_, f, n))) ==> {
            let be = b.format == Format::BigEndian;
            let o = face_list_at(b, pos0);
            &&& b.i_stride[b.i_stride_i as int] matches Type::List(t1, t2)
            &&& binary_uint_spec(t1, s, o, end, be) == Ok::<Option<u32>, ()>(Some(n))
            &&& f.len() == n
            &&& forall|m: int|
                0 <= m < n ==> binary_uint_spec(t2, s, o + raw_len(t1) + m * raw_len(t2), end, be) == Ok::<
                    Option<u32>,
                    (),
                >(Some(#[trigger] f[m]))
        },
    decreases b.i_stride_i - k,
{
    let be = b.format == Format::BigEndian;
    let pos = pos0 + scalars_size(b.i_stride, k);
    if k < b.i_stride_i {
        assert(b.i_stride[k] is Single);
        let t = scalar_type(b.i_stride[k]);
        assert(scalars_size(b.i_stride, k + 1) == scalars_size(b.i_stride, k) + raw_len(t));
        lemma_face_props_layout(b, k + 1, s, pos0, end, face, flen);
    } else {
        if let Type::List(t1, t2) = b.i_stride[k] {
            if let Ok(Some(n)) = binary_uint_spec(t1, s, pos, end, be) {
                lemma_list_items_values(t2, s, pos + raw_len(t1), end, be, n as nat, face);
                if let Ok(Some((p2, f2))) = list_items_spec(t2, s, pos + raw_len(t1), end, be, n as nat, face) {
                    lemma_face_props_keep(b, k + 1, s, p2, end, f2, n);
                    assert forall|m: int| 0 <= m < n implies binary_uint_spec(
                        t2,
                        s,
                        pos + raw_len(t1) + m * raw_len(t2),
                        end,
                        be,
                    ) == Ok::<Option<u32>, ()>(Some(#[trigger] f2[m])) by {
                        assert(f2[face.len() + m] == f2[m]);
                    }
                }
            }
        }
    }
}

proof fn lemma_face_props_keep(b: BodyView, k: int, s: Seq<u8>, pos: int, end: int, face: Seq<u32>, flen: u32)
    requires
        b.i_stride_i < k,
    ensures
        face_props_spec(b, k, s, pos, end, face, flen) matches Ok(Some((_, f, n))) ==> f == face && n == flen,
    decreases b.i_stride.len() - k,
{
    let be = b.format == Format::BigEndian;
    if k < b.i_stride.len() && k >= 0 {
        if let Ok(Some(sz)) = skip_binary_spec(b.i_stride[k], s, pos, end, be) {
            lemma_face_props_keep(b, k + 1, s, pos + sz, end, face, flen);
        }
    }
}

/// The layout of a binary face element whose properties other than the index list are
/// scalars: the list starts after the sizes of the properties before it; its count is the
/// value decoded there, and face index `m` is the value of the item decoded at
/// `raw_len(count type) + m * raw_len(item type)` bytes further on.
pub proof fn lemma_face_binary_layout(b: BodyView, s: Seq<u8>, pos: int, end: int)
    requires
        b.i_stride_i < b.i_stride.len(),
        b.i_stride[b.i_stride_i as int] is List,
        forall|j: int| 0 <= j < b.i_stride.len() && j != b.i_stride_i ==> #[trigger] b.i_stride[j] is Single,
    ensures
        face_elem_spec(b, s, pos, end) matches Ok(Some((_, f))) ==> {
            let be = b.format == Format::BigEndian;
            let o = face_list_at(b, pos);
            &&& b.i_stride[b.i_stride_i as int] matches Type::List(t1, t2)
            &&& binary_uint_spec(t1, s, o, end, be) == Ok::<Option<u32>, ()>(Some(f.len() as u32))
            &&& forall|m: int|
                0 <= m < f.len() ==> binary_uint_spec(t2, s, o + raw_len(t1) + m * raw_len(t2), end, be) == Ok::<
                    Option<u32>,
                    (),
                >(Some(#[trigger] f[m]))
        },
{
    lemma_face_props_layout(b, 0, s, pos, end, Seq::empty(), 0);
}

} // verus!
