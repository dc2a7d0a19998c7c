use vstd::prelude::*;
use crate::ply_body::{BodyInfos, BodyView, wadd};
use crate::ply_header::{get_next_line_start_and_end, next_line_spec};
use crate::ply_types::{Type, skip_ascii_spec};
use crate::scan::{
    ByteClass, Coord, dec_acc, digits_end, find_class, find_from, float_spec, lemma_find_from, parse_float, parse_int,
    parse_uint_spec,
};
use crate::surface::{FaceBuilder, FaceState, add_face_spec};
use crate::surface_laws::{faces_tally, lemma_tally_add};

verus! {

/// Skips the text properties `types[k..n]` from `i`.
pub open spec fn skip_types_spec(s: Seq<u8>, end: int, i: int, types: Seq<Type>, k: int, n: int) -> Option<int>
    decreases n - k,
{
    if k >= n || k < 0 {
        Some(i)
    } else {
        match skip_ascii_spec(types[k], s, i, end) {
            None => None,
            Some(o) => skip_types_spec(s, end, i + o, types, k + 1, n),
        }
    }
}

/// The `k` indices of a text face from `i`, each but the last followed by one byte and spaces.
pub open spec fn idx_list_spec(s: Seq<u8>, end: int, i: int, k: nat, acc: Seq<u32>) -> Option<Seq<u32>>
    decreases k,
{
    if k == 0 {
        Some(acc)
    } else {
        match parse_uint_spec(s, i, end) {
            None => None,
            Some((v, l)) => if k == 1 {
                Some(acc.push(v))
            } else {
                let i2 = i + l + 1;
                if i2 > end {
                    None
                } else {
                    match find_from(s, i2, end, ByteClass::NotSpace) {
                        None => None,
                        Some(i3) => idx_list_spec(s, end, i3, (k - 1) as nat, acc.push(v)),
                    }
                }
            },
        }
    }
}

/// The vertex indices of the text face element whose line starts at `a`; `None` where it is
/// malformed.
pub open spec fn ascii_face_spec(s: Seq<u8>, end: int, a: int, b: BodyView) -> Option<Seq<u32>> {
    if b.i_stride_i > b.i_stride.len() {
        None
    } else {
        match skip_types_spec(s, end, a, b.i_stride, 0, b.i_stride_i as int) {
            None => None,
            Some(i) => match parse_uint_spec(s, i, end) {
                None => None,
                Some((n, l)) => {
                    let i3 = match find_from(s, i + l, end, ByteClass::NotSpace) {
                        Some(x) => x,
                        None => end,
                    };
                    idx_list_spec(s, end, i3, n as nat, Seq::empty())
                },
            },
        }
    }
}

/// Reads the coordinates among the properties `idx..max_i` of a text vertex from `i`.
pub open spec fn vertex_props_spec(
    s: Seq<u8>,
    end: int,
    i: int,
    idx: int,
    max_i: int,
    b: BodyView,
    r: (Coord, Coord, Coord),
) -> Option<(Coord, Coord, Coord)>
    decreases max_i - idx,
{
    if idx >= max_i || idx < 0 {
        Some(r)
    } else if idx == b.vx || idx == b.vy || idx == b.vz {
        match float_spec(s, i, end) {
            None => None,
            Some((c, o)) => {
                let r2 = if idx == b.vx {
                    (c, r.1, r.2)
                } else if idx == b.vy {
                    (r.0, c, r.2)
                } else {
                    (r.0, r.1, c)
                };
                vertex_props_spec(s, end, i + o, idx + 1, max_i, b, r2)
            },
        }
    } else {
        match skip_ascii_spec(b.v_stride[idx], s, i, end) {
            None => None,
            Some(o) => vertex_props_spec(s, end, i + o, idx + 1, max_i, b, r),
        }
    }
}

pub open spec fn zero_coord() -> Coord {
    Coord::Unsigned(0)
}

pub open spec fn max3(a: u32, b: u32, c: u32) -> u32 {
    let m = if a >= b {
        a
    } else {
        b
    };
    if m >= c {
        m
    } else {
        c
    }
}

/// The coordinates of the text vertex element whose line starts at `a`: the properties are
/// read up to the last of x, y and z; a coordinate not found stays zero.
pub open spec fn ascii_vertex_spec(s: Seq<u8>, end: int, a: int, b: BodyView) -> Option<[Coord; 3]> {
    let max_i = wadd(max3(b.vx, b.vy, b.vz), 1);
    if max_i > b.v_stride.len() {
        None
    } else {
        match vertex_props_spec(s, end, a, 0, max_i as int, b, (zero_coord(), zero_coord(), zero_coord())) {
            None => None,
            Some(r) => Some([r.0, r.1, r.2]),
        }
    }
}

fn skip_types(data: &[u8], end: usize, i0: usize, types: &Vec<Type>, n: usize) -> (r: Option<usize>)
    requires
        end <= data.len(),
        i0 <= end,
        n <= types@.len(),
    ensures
        r matches Some(x) ==> skip_types_spec(data@, end as int, i0 as int, types@, 0, n as int) == Some(x as int) && x <= end,
        r is None ==> skip_types_spec(data@, end as int, i0 as int, types@, 0, n as int) is None,
{
    let ghost goal = skip_types_spec(data@, end as int, i0 as int, types@, 0, n as int);
    let mut i = i0;
    let mut k: usize = 0;
    while k < n
        invariant
            end <= data.len(),
            i <= end,
            k <= n <= types@.len(),
            goal == skip_types_spec(data@, end as int, i as int, types@, k as int, n as int),
            goal == skip_types_spec(data@, end as int, i0 as int, types@, 0, n as int),
        decreases n - k,
    {
        let o = types[k].skip_ascii(data, i, end)?;
        i = i + o;
        k = k + 1;
    }
    Some(i)
}

fn idx_list(data: &[u8], end: usize, i0: usize, n: u32) -> (r: Option<Vec<u32>>)
    requires
        end <= data.len(),
    ensures
        r matches Some(f) ==> idx_list_spec(data@, end as int, i0 as int, n as nat, Seq::empty()) == Some(f@),
        r is None ==> idx_list_spec(data@, end as int, i0 as int, n as nat, Seq::empty()) is None,
{
    let ghost goal = idx_list_spec(data@, end as int, i0 as int, n as nat, Seq::empty());
    let mut acc: Vec<u32> = Vec::new();
    let mut i = i0;
    let mut k = n;
    while k > 0
        invariant
            end <= data.len(),
            goal == idx_list_spec(data@, end as int, i as int, k as nat, acc@),
            goal == idx_list_spec(data@, end as int, i0 as int, n as nat, Seq::empty()),
        decreases k,
    {
        let (v, l) = parse_int(data, i, end)?;
        acc.push(v);
        if k == 1 {
            return Some(acc);
        }
        if l >= end - i {
            return None;
        }
        let i2 = i + l + 1;
        i = find_class(data, i2, end, ByteClass::NotSpace)?;
        k = k - 1;
    }
    Some(acc)
}

/// Reads the vertex indices of a text face element whose line starts at `a`.
pub fn ascii_face(data: &[u8], end: usize, a: usize, b: &BodyInfos) -> (r: Option<Vec<u32>>)
    requires
        end <= data.len(),
        a <= end,
    ensures
        r matches Some(f) ==> ascii_face_spec(data@, end as int, a as int, b@) == Some(f@),
        r is None ==> ascii_face_spec(data@, end as int, a as int, b@) is None,
{
    if b.i_stride_i as usize > b.i_stride.len() {
        return None;
    }
    let i = skip_types(data, end, a, &b.i_stride, b.i_stride_i as usize)?;
    let (n, l) = parse_int(data, i, end)?;
    let i3 = match find_class(data, i + l, end, ByteClass::NotSpace) {
        Some(x) => x,
        None => end,
    };
    idx_list(data, end, i3, n)
}

/// Reads the coordinates of a text vertex element whose line starts at `a`.
pub fn ascii_vertex(data: &[u8], end: usize, a: usize, b: &BodyInfos) -> (r: Option<[Coord; 3]>)
    requires
        end <= data.len(),
        a <= end,
    ensures
        r == ascii_vertex_spec(data@, end as int, a as int, b@),
{
    let m0 = if b.v_x_stride_i >= b.v_y_stride_i {
        b.v_x_stride_i
    } else {
        b.v_y_stride_i
    };
    let m = if m0 >= b.v_z_stride_i {
        m0
    } else {
        b.v_z_stride_i
    };
    let max_i = m.wrapping_add(1) as usize;
    if max_i > b.v_stride.len() {
        return None;
    }
    let ghost goal = vertex_props_spec(
        data@,
        end as int,
        a as int,
        0,
        max_i as int,
        b@,
        (zero_coord(), zero_coord(), zero_coord()),
    );
    let mut x = Coord::Unsigned(0);
    let mut y = Coord::Unsigned(0);
    let mut z = Coord::Unsigned(0);
    let mut i = a;
    let mut idx: usize = 0;
    while idx < max_i
        invariant
            end <= data.len(),
            i <= end,
            max_i <= b.v_stride@.len(),
            goal == vertex_props_spec(data@, end as int, i as int, idx as int, max_i as int, b@, (x, y, z)),
            max_i == wadd(max3(b@.vx, b@.vy, b@.vz), 1),
            goal == vertex_props_spec(
                data@,
                end as int,
                a as int,
                0,
                max_i as int,
                b@,
                (zero_coord(), zero_coord(), zero_coord()),
            ),
        decreases max_i - idx,
    {
        if idx == b.v_x_stride_i as usize || idx == b.v_y_stride_i as usize || idx == b.v_z_stride_i as usize {
            let (c, o) = parse_float(data, i, end)?;
            if idx == b.v_x_stride_i as usize {
                x = c;
            } else if idx == b.v_y_stride_i as usize {
                y = c;
            } else {
                z = c;
            }
            i = i + o;
        } else {
            let o = b.v_stride[idx].skip_ascii(data, i, end)?;
            i = i + o;
        }
        idx = idx + 1;
    }
    Some([x, y, z])
}

} // verus!

verus! {

/// Moves over raw bytes from `i`, counting `\n`s, while the line count is below `target`.
pub open spec fn skip_newlines_spec(s: Seq<u8>, i: int, end: int, line: nat, target: u32) -> (int, nat)
    decreases (if i < end {
        end - i
    } else {
        0
    }),
{
    if (line as u32) < target && 0 <= i < end {
        skip_newlines_spec(
            s,
            i + 1,
            end,
            if s[i] == 10 {
                line + 1
            } else {
                line
            },
            target,
        )
    } else {
        (i, line)
    }
}

/// Text face elements from `pos`, line `line`, until the line count reaches `target`:
/// `(ran_out, pos, line, faces)`.
pub open spec fn face_run_spec(s: Seq<u8>, end: int, pos: int, line: nat, target: u32, b: BodyView, fs: FaceState) -> Result<(bool, int, nat, FaceState), ()>
    decreases (if pos < end {
        end - pos
    } else {
        0
    }),
{
    if (line as u32) >= target {
        Ok((false, pos, line, fs))
    } else {
        match next_line_spec(s, pos, end) {
            None => Ok((true, pos, line, fs)),
            Some((a, l)) => match ascii_face_spec(s, end, a, b) {
                None => Err(()),
                Some(face) => {
                    let np = a + l;
                    if np <= pos || pos >= end {
                        Err(())
                    } else {
                        face_run_spec(s, end, np, line + 1, target, b, add_face_spec(fs.0, fs.1, fs.2, face))
                    }
                },
            },
        }
    }
}

/// Text vertex elements from `pos`, line `line`, until the line count reaches `target`:
/// `(ran_out, pos, line, vertices)`.
pub open spec fn vertex_run_spec(s: Seq<u8>, end: int, pos: int, line: nat, target: u32, b: BodyView, verts: Seq<[Coord; 3]>) -> Result<(bool, int, nat, Seq<[Coord; 3]>), ()>
    decreases (if pos < end {
        end - pos
    } else {
        0
    }),
{
    if (line as u32) >= target {
        Ok((false, pos, line, verts))
    } else {
        match next_line_spec(s, pos, end) {
            None => Ok((true, pos, line, verts)),
            Some((a, l)) => match ascii_vertex_spec(s, end, a, b) {
                None => Err(()),
                Some(v) => {
                    let np = a + l;
                    if np <= pos || pos >= end {
                        Err(())
                    } else {
                        vertex_run_spec(s, end, np, line + 1, target, b, verts.push(v))
                    }
                },
            },
        }
    }
}

pub open spec fn min_u32(a: u32, b: u32) -> u32 {
    if a <= b {
        a
    } else {
        b
    }
}

pub open spec fn max_u32(a: u32, b: u32) -> u32 {
    if a >= b {
        a
    } else {
        b
    }
}

pub open spec fn in_face_range(l: u32, b: BodyView) -> bool {
    l >= b.face_start && l < wadd(b.face_start, b.nf)
}

pub open spec fn in_vertex_range(l: u32, b: BodyView) -> bool {
    l >= b.vertex_start && l < wadd(b.vertex_start, b.nv)
}

/// The text body from `pos`, line `line`: `Ok((done, pos, line, vertices, faces))`, `done`
/// false where the text ran out first, `pos` and `line` where the reading stopped. Elements
/// before, between and after the vertices and faces are passed over line by line.
pub open spec fn ascii_body_spec(s: Seq<u8>, end: int, pos: int, line: nat, b: BodyView, verts: Seq<[Coord; 3]>, fs: FaceState) -> Result<(bool, int, nat, Seq<[Coord; 3]>, FaceState), ()>
    decreases (if pos < end {
        end - pos
    } else {
        0
    }),
{
    let l = line as u32;
    if l < b.ub || (!in_face_range(l, b) && !in_vertex_range(l, b) && l < max_u32(
        b.vertex_start,
        b.face_start,
    )) {
        let target = if l < b.ub {
            min_u32(b.face_start, b.vertex_start)
        } else {
            max_u32(b.face_start, b.vertex_start)
        };
        let (i, line2) = skip_newlines_spec(s, pos, end, line, target);
        if i == end {
            Ok((false, i, line2, verts, fs))
        } else if i <= pos || pos >= end {
            Err(())
        } else {
            ascii_body_spec(s, end, i, line2, b, verts, fs)
        }
    } else if in_face_range(l, b) {
        match face_run_spec(s, end, pos, line, wadd(b.face_start, b.nf), b, fs) {
            Err(_) => Err(()),
            Ok((true, p2, line2, fs2)) => Ok((false, p2, line2, verts, fs2)),
            Ok((false, p2, line2, fs2)) => if p2 <= pos || pos >= end {
                Err(())
            } else {
                ascii_body_spec(s, end, p2, line2, b, verts, fs2)
            },
        }
    } else if in_vertex_range(l, b) {
        match vertex_run_spec(s, end, pos, line, wadd(b.vertex_start, b.nv), b, verts) {
            Err(_) => Err(()),
            Ok((true, p2, line2, v2)) => Ok((false, p2, line2, v2, fs)),
            Ok((false, p2, line2, v2)) => if p2 <= pos || pos >= end {
                Err(())
            } else {
                ascii_body_spec(s, end, p2, line2, b, v2, fs)
            },
        }
    } else {
        Ok((true, pos, line, verts, fs))
    }
}

} // verus!

verus! {

fn skip_newlines(data: &[u8], i0: usize, end: usize, line0: u64, target: u32) -> (r: (usize, u64))
    requires
        end <= data.len(),
        i0 <= end,
        line0 <= i0,
    ensures
        skip_newlines_spec(data@, i0 as int, end as int, line0 as nat, target) == (r.0 as int, r.1 as nat),
        i0 <= r.0 <= end,
        r.1 <= r.0,
{
    let ghost goal = skip_newlines_spec(data@, i0 as int, end as int, line0 as nat, target);
    let mut i = i0;
    let mut line = line0;
    while (line as u32) < target && i < end
        invariant
            end <= data.len(),
            i0 <= i <= end,
            line <= i,
            goal == skip_newlines_spec(data@, i as int, end as int, line as nat, target),
            goal == skip_newlines_spec(data@, i0 as int, end as int, line0 as nat, target),
        decreases end - i,
    {
        if data[i] == 10 {
            line = line + 1;
        }
        i = i + 1;
    }
    (i, line)
}

fn face_run(data: &[u8], end: usize, pos0: usize, line0: u64, target: u32, b: &BodyInfos, faces: &mut FaceBuilder) -> (r: Result<(bool, usize, u64), ()>)
    requires
        end <= data.len(),
        line0 <= pos0 <= end,
    ensures
        match face_run_spec(data@, end as int, pos0 as int, line0 as nat, target, b@, old(faces).state()) {
            Err(_) => r is Err,
            Ok((ro, p, l, fs)) => r matches Ok((ro2, p2, l2)) && ro2 == ro && p2 == p && l2 == l
                && final(faces).state() == fs && l2 <= p2 <= end,
        },
{
    let ghost goal = face_run_spec(data@, end as int, pos0 as int, line0 as nat, target, b@, faces.state());
    let mut pos = pos0;
    let mut line = line0;
    loop
        invariant
            end <= data.len(),
            line <= pos <= end,
            goal == face_run_spec(data@, end as int, pos as int, line as nat, target, b@, faces.state()),
            goal == face_run_spec(data@, end as int, pos0 as int, line0 as nat, target, b@, old(faces).state()),
        decreases (if pos < end {
            end - pos
        } else {
            0
        }),
    {
        if (line as u32) >= target {
            return Ok((false, pos, line));
        }
        let (a, l) = match get_next_line_start_and_end(data, pos, end) {
            None => {
                return Ok((true, pos, line));
            },
            Some(x) => x,
        };
        let face = match ascii_face(data, end, a, b) {
            None => {
                return Err(());
            },
            Some(f) => f,
        };
        let np = a + l;
        if np <= pos || pos >= end {
            return Err(());
        }
        faces.add_face(&face);
        pos = np;
        line = line + 1;
    }
}

fn vertex_run(data: &[u8], end: usize, pos0: usize, line0: u64, target: u32, b: &BodyInfos, vertices: &mut Vec<[Coord; 3]>) -> (r: Result<(bool, usize, u64), ()>)
    requires
        end <= data.len(),
        line0 <= pos0 <= end,
    ensures
        match vertex_run_spec(data@, end as int, pos0 as int, line0 as nat, target, b@, old(vertices)@) {
            Err(_) => r is Err,
            Ok((ro, p, l, vs)) => r matches Ok((ro2, p2, l2)) && ro2 == ro && p2 == p && l2 == l
                && final(vertices)@ == vs && l2 <= p2 <= end,
        },
{
    let ghost goal = vertex_run_spec(data@, end as int, pos0 as int, line0 as nat, target, b@, vertices@);
    let mut pos = pos0;
    let mut line = line0;
    loop
        invariant
            end <= data.len(),
            line <= pos <= end,
            goal == vertex_run_spec(data@, end as int, pos as int, line as nat, target, b@, vertices@),
            goal == vertex_run_spec(data@, end as int, pos0 as int, line0 as nat, target, b@, old(vertices)@),
        decreases (if pos < end {
            end - pos
        } else {
            0
        }),
    {
        if (line as u32) >= target {
            return Ok((false, pos, line));
        }
        let (a, l) = match get_next_line_start_and_end(data, pos, end) {
            None => {
                return Ok((true, pos, line));
            },
            Some(x) => x,
        };
        let v = match ascii_vertex(data, end, a, b) {
            None => {
                return Err(());
            },
            Some(v) => v,
        };
        let np = a + l;
        if np <= pos || pos >= end {
            return Err(());
        }
        vertices.push(v);
        pos = np;
        line = line + 1;
    }
}

/// Reads a text body from `p0`, as `ascii_body_spec` says. `Ok((done, vertices, faces, pos,
/// line))`: `done` false where the text ran out before the last element; `pos` and `line`
/// where the reading stopped.
pub fn parse_ascii(data: &[u8], end: usize, p0: usize, b: &BodyInfos) -> (r: Result<
    (bool, Vec<[Coord; 3]>, FaceBuilder, usize, u64),
    (),
>)
    requires
        p0 <= end <= data.len(),
    ensures
        match ascii_body_spec(
            data@,
            end as int,
            p0 as int,
            0,
            b@,
            Seq::empty(),
            (crate::surface::FaceMode::Undetermined, Seq::empty(), Seq::empty()),
        ) {
            Err(_) => r is Err,
            Ok((d, p, l, v, fs)) => r matches Ok((d2, v2, f2, p2, l2)) && d2 == d && v2@ == v && f2.state() == fs
                && p2 == p && l2 == l,
        },
{
    let mut vertices: Vec<[Coord; 3]> = Vec::new();
    let mut faces = FaceBuilder::new();
    let ghost goal = ascii_body_spec(data@, end as int, p0 as int, 0, b@, vertices@, faces.state());
    assert(vertices@ == Seq::<[Coord; 3]>::empty());
    let mut pos = p0;
    let mut line: u64 = 0;
    let fend = b.face_start.wrapping_add(b.nf);
    let vend = b.vertex_start.wrapping_add(b.nv);
    let hi = if b.vertex_start >= b.face_start {
        b.vertex_start
    } else {
        b.face_start
    };
    let lo = if b.face_start <= b.vertex_start {
        b.face_start
    } else {
        b.vertex_start
    };
    loop
        invariant
            end <= data.len(),
            line <= pos <= end,
            fend == wadd(b@.face_start, b@.nf),
            vend == wadd(b@.vertex_start, b@.nv),
            hi == max_u32(b@.vertex_start, b@.face_start),
            lo == min_u32(b@.face_start, b@.vertex_start),
            goal == ascii_body_spec(data@, end as int, pos as int, line as nat, b@, vertices@, faces.state()),
            goal == ascii_body_spec(
                data@,
                end as int,
                p0 as int,
                0,
                b@,
                Seq::empty(),
                (crate::surface::FaceMode::Undetermined, Seq::empty(), Seq::empty()),
            ),
        decreases (if pos < end {
            end - pos
        } else {
            0
        }),
    {
        let l = line as u32;
        let in_face = l >= b.face_start && l < fend;
        let in_vertex = l >= b.vertex_start && l < vend;
        if l < b.useless_before_count || (!in_face && !in_vertex && l < hi) {
            let target = if l < b.useless_before_count {
                lo
            } else {
                hi
            };
            let (i, line2) = skip_newlines(data, pos, end, line, target);
            if i == end {
                return Ok((false, vertices, faces, i, line2));
            }
            if i <= pos || pos >= end {
                return Err(());
            }
            pos = i;
            line = line2;
        } else if in_face {
            let (ran_out, p2, line2) = face_run(data, end, pos, line, fend, b, &mut faces)?;
            if ran_out {
                return Ok((false, vertices, faces, p2, line2));
            }
            if p2 <= pos || pos >= end {
                return Err(());
            }
            pos = p2;
            line = line2;
        } else if in_vertex {
            let (ran_out, p2, line2) = vertex_run(data, end, pos, line, vend, b, &mut vertices)?;
            if ran_out {
                return Ok((false, vertices, faces, p2, line2));
            }
            if p2 <= pos || pos >= end {
                return Err(());
            }
            pos = p2;
            line = line2;
        } else {
            return Ok((true, vertices, faces, pos, line));
        }
    }
}

} // verus!

verus! {

/// How many of the face lines of the body, `face_start` on and as many as the face count,
/// come before line `line`.
pub open spec fn faces_before(b: BodyView, line: int) -> int {
    let tf = wadd(b.face_start, b.nf);
    if tf < b.face_start || line <= b.face_start {
        0
    } else if line <= tf {
        line - b.face_start
    } else {
        tf - b.face_start
    }
}

proof fn lemma_skip_newlines(s: Seq<u8>, i: int, end: int, line: nat, target: u32)
    ensures
        ({
            let (i2, l2) = skip_newlines_spec(s, i, end, line, target);
            i <= i2 && line <= l2 && l2 - line <= i2 - i
        }),
    decreases (if i < end {
        end - i
    } else {
        0
    }),
{
    if (line as u32) < target && 0 <= i < end {
        lemma_skip_newlines(s, i + 1, end, if s[i] == 10 {
            line + 1
        } else {
            line
        }, target);
    }
}

proof fn lemma_vertex_run_lines(s: Seq<u8>, end: int, pos: int, line: nat, target: u32, b: BodyView, verts: Seq<[Coord; 3]>)
    ensures
        vertex_run_spec(s, end, pos, line, target, b, verts) matches Ok((_, p2, l2, _)) ==> pos <= p2 && line <= l2
            && l2 - line <= p2 - pos,
    decreases (if pos < end {
        end - pos
    } else {
        0
    }),
{
    if (line as u32) < target {
        if let Some((a, l)) = next_line_spec(s, pos, end) {
            if let Some(v) = ascii_vertex_spec(s, end, a, b) {
                let np = a + l;
                if !(np <= pos || pos >= end) {
                    lemma_vertex_run_lines(s, end, np, line + 1, target, b, verts.push(v));
                }
            }
        }
    }
}

proof fn lemma_face_run_tally(
    s: Seq<u8>,
    end: int,
    pos: int,
    line: nat,
    b: BodyView,
    fs: FaceState,
    lens: Seq<nat>,
    q0: int,
) -> (lens2: Seq<nat>)
    requires
        faces_tally(fs.0, fs.1, fs.2, lens),
        b.face_start <= line,
        lens.len() <= faces_before(b, line as int),
        q0 <= pos,
        line <= pos - q0,
        end - q0 <= u32::MAX,
    ensures
        face_run_spec(s, end, pos, line, wadd(b.face_start, b.nf), b, fs) matches Ok((_, p2, l2, fs2)) ==> {
            &&& faces_tally(fs2.0, fs2.1, fs2.2, lens2)
            &&& lens2.len() <= faces_before(b, l2 as int)
            &&& pos <= p2 && line <= l2 && l2 - line <= p2 - pos
        },
    decreases (if pos < end {
        end - pos
    } else {
        0
    }),
{
    let target = wadd(b.face_start, b.nf);
    if (line as u32) >= target {
        lens
    } else {
        match next_line_spec(s, pos, end) {
            None => lens,
            Some((a, l)) => match ascii_face_spec(s, end, a, b) {
                None => lens,
                Some(face) => {
                    let np = a + l;
                    if np <= pos || pos >= end {
                        lens
                    } else {
                        assert(line < 0x1_0000_0000);
                        assert(line as u32 == line);
                        lemma_tally_add(fs.0, fs.1, fs.2, lens, face);
                        lemma_face_run_tally(
                            s,
                            end,
                            np,
                            line + 1,
                            b,
                            add_face_spec(fs.0, fs.1, fs.2, face),
                            lens.push(face.len()),
                            q0,
                        )
                    }
                },
            },
        }
    }
}

/// In a text body read to its end, no more faces were read than the header announced, and
/// the faces' state agrees with the lengths of those read (short ones included). The
/// returned list holds those lengths. The body starts at `q0` and its line count stays
/// below 2^32.
pub proof fn lemma_ascii_body_tally(
    s: Seq<u8>,
    end: int,
    pos: int,
    line: nat,
    b: BodyView,
    verts: Seq<[Coord; 3]>,
    fs: FaceState,
    lens: Seq<nat>,
    q0: int,
) -> (lens2: Seq<nat>)
    requires
        faces_tally(fs.0, fs.1, fs.2, lens),
        lens.len() <= faces_before(b, line as int),
        q0 <= pos,
        line <= pos - q0,
        end - q0 <= u32::MAX,
    ensures
        ascii_body_spec(s, end, pos, line, b, verts, fs) matches Ok((true, _, _, _, fs2)) ==> faces_tally(
            fs2.0,
            fs2.1,
            fs2.2,
            lens2,
        ) && lens2.len() <= b.nf,
    decreases (if pos < end {
        end - pos
    } else {
        0
    }),
{
    let l = line as u32;
    if l < b.ub || (!in_face_range(l, b) && !in_vertex_range(l, b) && l < max_u32(b.vertex_start, b.face_start)) {
        let target = if l < b.ub {
            min_u32(b.face_start, b.vertex_start)
        } else {
            max_u32(b.face_start, b.vertex_start)
        };
        let (i, line2) = skip_newlines_spec(s, pos, end, line, target);
        lemma_skip_newlines(s, pos, end, line, target);
        if i == end || i <= pos || pos >= end {
            lens
        } else {
            lemma_ascii_body_tally(s, end, i, line2, b, verts, fs, lens, q0)
        }
    } else if in_face_range(l, b) {
        let l1 = lemma_face_run_tally(s, end, pos, line, b, fs, lens, q0);
        match face_run_spec(s, end, pos, line, wadd(b.face_start, b.nf), b, fs) {
            Ok((false, p2, line2, fs2)) => if p2 <= pos || pos >= end {
                l1
            } else {
                lemma_ascii_body_tally(s, end, p2, line2, b, verts, fs2, l1, q0)
            },
            _ => l1,
        }
    } else if in_vertex_range(l, b) {
        lemma_vertex_run_lines(s, end, pos, line, wadd(b.vertex_start, b.nv), b, verts);
        match vertex_run_spec(s, end, pos, line, wadd(b.vertex_start, b.nv), b, verts) {
            Ok((false, p2, line2, v2)) => if p2 <= pos || pos >= end {
                lens
            } else {
                lemma_ascii_body_tally(s, end, p2, line2, b, v2, fs, lens, q0)
            },
            _ => lens,
        }
    } else {
        lens
    }
}

/// Where the digits of the number whose word starts at `w` start (after a leading `+`).
pub open spec fn digits_start(s: Seq<u8>, w: int) -> int {
    if s[w] == 43 {
        w + 1
    } else {
        w
    }
}

/// The indices of a text face are the decimal values of consecutive words, whatever their
/// number of digits: the returned `ws` holds where each of the `k` words read from `i` starts.
/// Word `m` gives index `acc.len() + m` of the face (the indices already in `acc` kept), and
/// word `m + 1` starts at the first byte that is no space after the byte that follows word
/// `m`'s whole run of digits.
pub proof fn lemma_idx_list_words(s: Seq<u8>, end: int, i: int, k: nat, acc: Seq<u32>) -> (ws: Seq<int>)
    requires
        0 <= i,
        end <= s.len(),
    ensures
        idx_list_spec(s, end, i, k, acc) matches Some(f) ==> {
            &&& f.len() == acc.len() + k
            &&& f.subrange(0, acc.len() as int) == acc
            &&& ws.len() == k
            &&& k > 0 ==> ws[0] == i
            &&& forall|m: int| 0 <= m < k ==> i <= #[trigger] ws[m] < end
            &&& forall|m: int|
                0 <= m < k ==> #[trigger] f[acc.len() + m] == dec_acc(
                    s,
                    digits_start(s, ws[m]),
                    digits_end(s, digits_start(s, ws[m]), end),
                )
            &&& forall|m: int|
                0 <= m < k - 1 ==> {
                    let e = digits_end(s, digits_start(s, ws[m]), end);
                    &&& e + 1 <= #[trigger] ws[m + 1]
                    &&& forall|j: int| e + 1 <= j < ws[m + 1] ==> s[j] == 32
                    &&& s[ws[m + 1]] != 32
                }
        },
    decreases k,
{
    if k == 0 {
        assert(acc.subrange(0, acc.len() as int) =~= acc);
        Seq::empty()
    } else {
        match parse_uint_spec(s, i, end) {
            None => Seq::empty(),
            Some((v, l)) => {
                let st = digits_start(s, i);
                lemma_find_from(s, st, end, ByteClass::NotDigit);
                assert(digits_end(s, st, end) == i + l);
                if k == 1 {
                    let f = acc.push(v);
                    assert(f.subrange(0, acc.len() as int) =~= acc);
                    assert(f[acc.len() as int] == v);
                    seq![i]
                } else {
                    let i2 = i + l + 1;
                    if i2 > end {
                        Seq::empty()
                    } else {
                        lemma_find_from(s, i2, end, ByteClass::NotSpace);
                        match find_from(s, i2, end, ByteClass::NotSpace) {
                            None => Seq::empty(),
                            Some(i3) => {
                                let acc2 = acc.push(v);
                                let rest = lemma_idx_list_words(s, end, i3, (k - 1) as nat, acc2);
                                let ws = seq![i].add(rest);
                                if let Some(f) = idx_list_spec(s, end, i, k, acc) {
                                    assert(f == idx_list_spec(s, end, i3, (k - 1) as nat, acc2)->0);
                                    assert(f.subrange(0, acc2.len() as int) == acc2);
                                    assert(f.subrange(0, acc.len() as int) =~= acc) by {
                                        assert forall|j: int| 0 <= j < acc.len() implies f[j] == acc[j] by {
                                            assert(f.subrange(0, acc2.len() as int)[j] == acc2[j]);
                                        }
                                    }
                                    assert(f[acc.len() as int] == v) by {
                                        assert(f.subrange(0, acc2.len() as int)[acc.len() as int] == acc2[acc.len() as int]);
                                    }
                                    assert forall|m: int| 0 <= m < k implies #[trigger] f[acc.len() + m] == dec_acc(
                                        s,
                                        digits_start(s, ws[m]),
                                        digits_end(s, digits_start(s, ws[m]), end),
                                    ) by {
                                        if m > 0 {
                                            assert(ws[m] == rest[m - 1]);
                                            assert(f[acc2.len() + (m - 1)] == dec_acc(
                                                s,
                                                digits_start(s, rest[m - 1]),
                                                digits_end(s, digits_start(s, rest[m - 1]), end),
                                            ));
                                        }
                                    }
                                    assert forall|m: int| 0 <= m < k - 1 implies {
                                        let e = digits_end(s, digits_start(s, ws[m]), end);
                                        &&& e + 1 <= #[trigger] ws[m + 1]
                                        &&& forall|j: int| e + 1 <= j < ws[m + 1] ==> s[j] == 32
                                        &&& s[ws[m + 1]] != 32
                                    } by {
                                        if m > 0 {
                                            let mm = m - 1;
                                            assert(ws[m] == rest[mm]);
                                            assert(ws[m + 1] == rest[mm + 1]);
                                            let e2 = digits_end(s, digits_start(s, rest[mm]), end);
                                            assert(e2 + 1 <= rest[mm + 1]);
                                            assert(forall|j: int| e2 + 1 <= j < rest[mm + 1] ==> s[j] == 32);
                                            assert(s[rest[mm + 1]] != 32);
                                        } else {
                                            assert(ws[1] == rest[0]);
                                        }
                                    }
                                    assert forall|m: int| 0 <= m < k implies i <= #[trigger] ws[m] < end by {
                                        if m > 0 {
                                            assert(ws[m] == rest[m - 1]);
                                        }
                                    }
                                }
                                ws
                            },
                        }
                    }
                }
            },
        }
    }
}

} // verus!
