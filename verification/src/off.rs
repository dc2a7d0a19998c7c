use vstd::prelude::*;
use crate::mesh::{RawMesh, last_line_end, mesh_matches, rfind_newline, terminated, terminated_copy};
use crate::scan::{
    ByteClass, Coord, dec_acc, digits_end, find_class, find_from, find_newline, lemma_find_from, lemma_find_from_range, float3_spec, parse_float3, parse_int,
    parse_uint_spec,
};
use crate::surface::{FaceBuilder, FaceMode, FaceState, add_face_spec};
use crate::surface_laws::{faces_agree, faces_consistent, lemma_add_face_consistent, sum_lens};

verus! {

/// From `i`, the first byte of a line's content: where a `#` comment line starts there, the
/// reader goes past its `\n` and the spaces that follow, and looks again. `Ok(None)` where a
/// comment line has no `\n`, or nothing but spaces follows it.
pub open spec fn comment_skip_spec(s: Seq<u8>, end: int, i: int) -> Result<Option<int>, ()>
    decreases (if i < end {
        end - i
    } else {
        0
    }),
{
    if i >= end || i < 0 {
        Err(())
    } else if s[i] != 35 {
        Ok(Some(i))
    } else {
        match find_from(s, i + 1, end, ByteClass::Newline) {
            None => Ok(None),
            Some(q) => match find_from(s, q + 1, end, ByteClass::NotSpace) {
                None => Ok(None),
                Some(j) => {
                    proof {
                        lemma_find_from_range(s, i + 1, end, ByteClass::Newline);
                        lemma_find_from_range(s, q + 1, end, ByteClass::NotSpace);
                    }
                    comment_skip_spec(s, end, j)
                },
            },
        }
    }
}

/// Where the content of the next line of an OFF text starts, from `d`: leading spaces and
/// `#` comment lines are passed over (see `comment_skip_spec`). `Ok(None)` where no content
/// is left.
pub open spec fn line_start_spec(s: Seq<u8>, d: int, end: int) -> Result<Option<int>, ()> {
    match find_from(s, d, end, ByteClass::NotSpace) {
        None => Ok(None),
        Some(i0) => comment_skip_spec(s, end, i0),
    }
}

/// Finds where the content of the next line of an OFF text starts, from `d`, passing over
/// leading spaces and `#` comment lines, as `line_start_spec` says.
pub fn get_line_start(data: &[u8], d: usize, end: usize) -> (r: Result<Option<usize>, ()>)
    requires
        end <= data.len(),
    ensures
        r matches Ok(Some(i)) ==> line_start_spec(data@, d as int, end as int) == Ok::<Option<int>, ()>(Some(i as int)) && i < end,
        r matches Ok(None) ==> line_start_spec(data@, d as int, end as int) == Ok::<Option<int>, ()>(None),
        r is Err ==> line_start_spec(data@, d as int, end as int) is Err,
{
    let i0 = match find_class(data, d, end, ByteClass::NotSpace) {
        None => {
            return Ok(None);
        },
        Some(i0) => i0,
    };
    let ghost goal = line_start_spec(data@, d as int, end as int);
    let mut i = i0;
    loop
        invariant
            end <= data.len(),
            i < end,
            goal == comment_skip_spec(data@, end as int, i as int),
            goal == line_start_spec(data@, d as int, end as int),
        decreases end - i,
    {
        if data[i] != 35 {
            return Ok(Some(i));
        }
        let q = match find_newline(data, i + 1, end) {
            None => {
                return Ok(None);
            },
            Some(q) => q,
        };
        let j = match find_class(data, q + 1, end, ByteClass::NotSpace) {
            None => {
                return Ok(None);
            },
            Some(j) => j,
        };
        i = j;
    }
}

/// Skips the run of spaces at `d` (`data[0] == b' '` branch); `None` when the bytes run out.
pub open spec fn skip_run_spec(s: Seq<u8>, d: int, end: int) -> Option<int> {
    if d >= end {
        None
    } else if s[d] == 32 {
        find_from(s, d + 1, end, ByteClass::NotSpace)
    } else {
        Some(d)
    }
}

fn skip_run(data: &[u8], d: usize, end: usize) -> (r: Option<usize>)
    requires
        end <= data.len(),
    ensures
        r matches Some(x) ==> skip_run_spec(data@, d as int, end as int) == Some(x as int) && x < end,
        r is None ==> skip_run_spec(data@, d as int, end as int) is None,
{
    if d >= end {
        None
    } else if data[d] == 32 {
        find_class(data, d + 1, end, ByteClass::NotSpace)
    } else {
        Some(d)
    }
}

/// The indices after the first two of a face with `k` more to read.
pub open spec fn face_rest_spec(s: Seq<u8>, d: int, end: int, k: nat, acc: Seq<u32>) -> Option<(Seq<u32>, int)>
    decreases k,
{
    match parse_uint_spec(s, d, end) {
        None => None,
        Some((v, l)) => if k == 0 {
            Some((acc.push(v), d + l))
        } else {
            let d1 = d + l + 1;
            if d1 > end {
                None
            } else {
                match skip_run_spec(s, d1, end) {
                    None => None,
                    Some(d2) => face_rest_spec(s, d2, end, (k - 1) as nat, acc.push(v)),
                }
            }
        },
    }
}

/// A face line of an OFF text at `d`: its vertex count, then that many indices. The indices
/// and where the reader goes on.
pub open spec fn off_face_spec(s: Seq<u8>, d: int, end: int) -> Option<(Seq<u32>, int)> {
    match parse_uint_spec(s, d, end) {
        None => None,
        Some((fl, l)) => {
            let d1 = d + l + 1;
            if d1 > end || fl < 3 {
                None
            } else {
                match skip_run_spec(s, d1, end) {
                    None => None,
                    Some(d2) => match parse_uint_spec(s, d2, end) {
                        None => None,
                        Some((v0, l0)) => {
                            let d3 = d2 + l0 + 1;
                            if d3 > end {
                                None
                            } else {
                                match skip_run_spec(s, d3, end) {
                                    None => None,
                                    Some(d4) => match parse_uint_spec(s, d4, end) {
                                        None => None,
                                        Some((v1, l1)) => {
                                            let d5 = d4 + l1 + 1;
                                            if d5 > end {
                                                None
                                            } else {
                                                match skip_run_spec(s, d5, end) {
                                                    None => None,
                                                    Some(d6) => face_rest_spec(
                                                        s,
                                                        d6,
                                                        end,
                                                        (fl - 3) as nat,
                                                        seq![v0, v1],
                                                    ),
                                                }
                                            }
                                        },
                                    },
                                }
                            }
                        },
                    },
                }
            }
        },
    }
}

/// Reads an index and the byte after it, then skips a run of spaces.
fn index_then_skip(data: &[u8], d: usize, end: usize) -> (r: Option<(u32, usize)>)
    requires
        end <= data.len(),
    ensures
        r matches Some((v, d2)) ==> parse_uint_spec(data@, d as int, end as int) matches Some((v2, l)) && v2 == v
            && d + l + 1 <= end && skip_run_spec(data@, d + l + 1, end as int) == Some(d2 as int) && d2 < end,
        r is None ==> parse_uint_spec(data@, d as int, end as int) is None || (parse_uint_spec(
            data@,
            d as int,
            end as int,
        ) matches Some((v2, l)) && (d + l + 1 > end || skip_run_spec(data@, d + l + 1, end as int) is None)),
{
    let (v, l) = parse_int(data, d, end)?;
    if l >= end - d {
        return None;
    }
    let d1 = d + l + 1;
    let d2 = skip_run(data, d1, end)?;
    Some((v, d2))
}

/// Reads an OFF face line at `d`: the vertex count (three at least), then that many vertex
/// indices, each but the last followed by one byte and any spaces. The indices and the
/// position after the last one, as `off_face_spec` says; `None` where the line is malformed.
pub fn parse_face_indices(data: &[u8], d: usize, end: usize) -> (r: Option<(Vec<u32>, usize)>)
    requires
        end <= data.len(),
    ensures
        r matches Some((f, e)) ==> off_face_spec(data@, d as int, end as int) == Some((f@, e as int)) && e <= end,
        r is None ==> off_face_spec(data@, d as int, end as int) is None,
{
    let (fl, l) = parse_int(data, d, end)?;
    if l >= end - d || fl < 3 {
        return None;
    }
    let d1 = d + l + 1;
    let d2 = skip_run(data, d1, end)?;
    let (v0, d4) = index_then_skip(data, d2, end)?;
    let (v1, d6) = index_then_skip(data, d4, end)?;
    let mut acc: Vec<u32> = Vec::new();
    acc.push(v0);
    acc.push(v1);
    assert(acc@ =~= seq![v0, v1]);
    let ghost goal = face_rest_spec(data@, d6 as int, end as int, (fl - 3) as nat, seq![v0, v1]);
    assert(goal == off_face_spec(data@, d as int, end as int));
    let mut k: u32 = fl - 3;
    let mut p = d6;
    loop
        invariant
            end <= data.len(),
            goal == face_rest_spec(data@, p as int, end as int, k as nat, acc@),
            goal == off_face_spec(data@, d as int, end as int),
        decreases k,
    {
        if k == 0 {
            let (v, l) = parse_int(data, p, end)?;
            acc.push(v);
            return Some((acc, p + l));
        }
        let (v, p2) = index_then_skip(data, p, end)?;
        acc.push(v);
        p = p2;
        k = k - 1;
    }
}

/// The header of an OFF text: vertex and face counts and where the body starts. The `OFF`
/// line is optional; comment lines before either line are passed over. `Err` where the header
/// is cut short.
pub open spec fn off_header_spec(s: Seq<u8>, end: int) -> Result<(u32, u32, int), ()> {
    match line_start_spec(s, 0, end) {
        Err(_) => Err(()),
        Ok(None) => Err(()),
        Ok(Some(a)) => if a + 3 > end {
            Err(())
        } else {
            let d = if s[a] == 79 && s[a + 1] == 70 && s[a + 2] == 70 {
                match find_from(s, a + 3, end, ByteClass::Newline) {
                    None => -1,
                    Some(q) => match line_start_spec(s, q + 1, end) {
                        Ok(Some(c)) => c,
                        _ => -1,
                    },
                }
            } else {
                a
            };
            if d < 0 {
                Err(())
            } else {
                match parse_uint_spec(s, d, end) {
                    None => Err(()),
                    Some((nv, l1)) => {
                        let e = match find_from(s, d + l1, end, ByteClass::NotSpace) {
                            Some(x) => x,
                            None => end,
                        };
                        match parse_uint_spec(s, e, end) {
                            None => Err(()),
                            Some((nf, l2)) => match find_from(s, d + l2, end, ByteClass::Newline) {
                                None => Err(()),
                                Some(q) => Ok((nv, nf, q + 1)),
                            },
                        }
                    },
                }
            }
        },
    }
}

/// The vertex lines, from line number `line` on, up to `nv` of them.
pub open spec fn off_vertices_spec(s: Seq<u8>, end: int, d: int, line: nat, nv: nat, verts: Seq<[Coord; 3]>) -> Result<(int, nat, Seq<[Coord; 3]>), ()>
    decreases (if d < end {
        end - d
    } else {
        0
    }),
{
    if line >= nv + 1 {
        Ok((d, line, verts))
    } else {
        match line_start_spec(s, d, end) {
            Err(_) => Err(()),
            Ok(None) => Ok((d, line, verts)),
            Ok(Some(a)) => match float3_spec(s, a, end) {
                None => Err(()),
                Some((off, c)) => {
                    let p = a + off;
                    match line_advance_spec(s, p, end) {
                        None => Err(()),
                        Some(next) => if next <= d {
                            Err(())
                        } else {
                            off_vertices_spec(s, end, next, line + 1, nv, verts.push(c))
                        },
                    }
                },
            },
        }
    }
}

/// After an element, the reader moves past its line end: `\r` (taken with its `\n`), `\n`,
/// or anything up to the next `\n`.
pub open spec fn line_advance_spec(s: Seq<u8>, p: int, end: int) -> Option<int> {
    if p >= end || p < 0 {
        None
    } else if s[p] == 13 {
        if p + 2 > end {
            None
        } else {
            Some(p + 2)
        }
    } else if s[p] == 10 {
        Some(p + 1)
    } else {
        match find_from(s, p, end, ByteClass::Newline) {
            None => None,
            Some(q) => Some(q + 1),
        }
    }
}

fn line_advance(data: &[u8], p: usize, end: usize) -> (r: Option<usize>)
    requires
        end <= data.len(),
    ensures
        r matches Some(x) ==> line_advance_spec(data@, p as int, end as int) == Some(x as int) && x <= end,
        r is None ==> line_advance_spec(data@, p as int, end as int) is None,
{
    if p >= end {
        None
    } else if data[p] == 13 {
        if end - p < 2 {
            None
        } else {
            Some(p + 2)
        }
    } else if data[p] == 10 {
        Some(p + 1)
    } else {
        let q = find_newline(data, p, end)?;
        Some(q + 1)
    }
}

/// The face lines, from line number `line` on, up to line `limit`.
pub open spec fn off_faces_spec(s: Seq<u8>, end: int, d: int, line: nat, limit: nat, fs: FaceState) -> Result<(nat, FaceState), ()>
    decreases (if d < end {
        end - d
    } else {
        0
    }),
{
    if line >= limit {
        Ok((line, fs))
    } else {
        match line_start_spec(s, d, end) {
            Err(_) => Err(()),
            Ok(None) => Ok((line, fs)),
            Ok(Some(a)) => match off_face_spec(s, a, end) {
                None => Err(()),
                Some((face, p)) => match line_advance_spec(s, p, end) {
                    None => Err(()),
                    Some(next) => if next <= d {
                        Err(())
                    } else {
                        off_faces_spec(s, end, next, line + 1, limit, add_face_spec(fs.0, fs.1, fs.2, face))
                    },
                },
            },
        }
    }
}

/// The face count the header announced is the one read.
pub open spec fn off_counts_agree(fs: FaceState, nf: nat) -> bool {
    match fs.0 {
        FaceMode::Polygon => fs.2.len() == nf,
        FaceMode::Quad => fs.1.len() / 4 == nf,
        _ => fs.1.len() / 3 == nf,
    }
}

/// What an OFF text gives, read up to the end of its last complete line.
pub open spec fn off_text_spec(s: Seq<u8>) -> Option<(Seq<[Coord; 3]>, FaceMode, Seq<u32>, Seq<u8>)> {
    match rfind_newline(s, s.len() as int) {
        None => Some((Seq::empty(), FaceMode::Undetermined, Seq::empty(), Seq::empty())),
        Some(end) => match off_header_spec(s, end) {
            Err(_) => None,
            Ok((nv, nf, d)) => match off_vertices_spec(s, end, d, 1, nv as nat, Seq::empty()) {
                Err(_) => None,
                Ok((d2, line, verts)) => match off_faces_spec(
                    s,
                    end,
                    d2,
                    line,
                    (nv + nf + 1) as nat,
                    (FaceMode::Undetermined, Seq::empty(), Seq::empty()),
                ) {
                    Err(_) => None,
                    Ok((_, fs)) => if off_counts_agree(fs, nf as nat) {
                        Some((verts, fs.0, fs.1, fs.2))
                    } else {
                        None
                    },
                },
            },
        },
    }
}

} // verus!

verus! {

/// Reads the header of an OFF text (an optional `OFF` line, then the vertex, face and edge
/// counts): the vertex and face counts and where the first vertex line starts, as
/// `off_header_spec` says.
pub fn parse_header(data: &[u8], end: usize) -> (r: Result<(u32, u32, usize), ()>)
    requires
        end <= data.len(),
    ensures
        r matches Ok((nv, nf, d)) ==> off_header_spec(data@, end as int) == Ok::<(u32, u32, int), ()>((nv, nf, d as int)) && d <= end,
        r is Err ==> off_header_spec(data@, end as int) is Err,
{
    let a = match get_line_start(data, 0, end) {
        Ok(Some(a)) => a,
        _ => {
            return Err(());
        },
    };
    if end - a < 3 {
        return Err(());
    }
    let d = if data[a] == 79 && data[a + 1] == 70 && data[a + 2] == 70 {
        match find_newline(data, a + 3, end) {
            None => {
                return Err(());
            },
            Some(q) => match get_line_start(data, q + 1, end) {
                Ok(Some(c)) => c,
                _ => {
                    return Err(());
                },
            },
        }
    } else {
        a
    };
    let (nv, l1) = match parse_int(data, d, end) {
        None => {
            return Err(());
        },
        Some(x) => x,
    };
    let e = match find_class(data, d + l1, end, ByteClass::NotSpace) {
        Some(x) => x,
        None => end,
    };
    let (nf, l2) = match parse_int(data, e, end) {
        None => {
            return Err(());
        },
        Some(x) => x,
    };
    if l2 > end - d {
        return Err(());
    }
    match find_newline(data, d + l2, end) {
        None => Err(()),
        Some(q) => Ok((nv, nf, q + 1)),
    }
}

/// Parses an OFF text: an optional `OFF` line, the counts line, then the vertex lines and the
/// face lines. The faces read must be as many as the header announced.
fn off_text(data: &[u8]) -> (r: Result<RawMesh, ()>)
    ensures
        mesh_matches(r, off_text_spec(data@)),
        off_text_spec(data@) matches Some(st) ==> faces_agree(st.1, st.2, st.3),
{
    proof {
        let w = lemma_off_text_faces(data@);
        if let Some(st) = off_text_spec(data@) {
            assert(faces_consistent(st.1, st.2, st.3, w));
        }
    }
    let mut vertices: Vec<[Coord; 3]> = Vec::new();
    let mut faces = FaceBuilder::new();
    let end = match last_line_end(data) {
        None => {
            return Ok(RawMesh { vertices, indices: faces.finish() });
        },
        Some(l) => l,
    };
    let (nv, nf, mut d) = parse_header(data, end)?;
    let ghost d0 = d as int;
    let ghost vgoal = off_vertices_spec(data@, end as int, d as int, 1, nv as nat, Seq::empty());
    let mut line: u64 = 1;
    let vlimit: u64 = nv as u64 + 1;
    loop
        invariant
            end <= data.len(),
            d <= end,
            line <= vlimit,
            vlimit == nv as u64 + 1,
            vgoal == off_vertices_spec(data@, end as int, d as int, line as nat, nv as nat, vertices@),
            vgoal == off_vertices_spec(data@, end as int, d0, 1, nv as nat, Seq::empty()),
            rfind_newline(data@, data@.len() as int) == Some(end as int),
            off_header_spec(data@, end as int) == Ok::<(u32, u32, int), ()>((nv, nf, d0)),
        ensures
            vgoal == Ok::<(int, nat, Seq<[Coord; 3]>), ()>((d as int, line as nat, vertices@)),
            d <= end,
        decreases (if d < end {
            end - d
        } else {
            0
        }),
    {
        if line >= vlimit {
            break;
        }
        let a = match get_line_start(data, d, end)? {
            None => {
                break;
            },
            Some(a) => a,
        };
        let (off, c) = match parse_float3(data, a, end) {
            None => {
                return Err(());
            },
            Some(x) => x,
        };
        let next = match line_advance(data, a + off, end) {
            None => {
                return Err(());
            },
            Some(x) => x,
        };
        if next <= d {
            return Err(());
        }
        vertices.push(c);
        line = line + 1;
        d = next;
    }
    let ghost fgoal = off_faces_spec(
        data@,
        end as int,
        d as int,
        line as nat,
        (nv + nf + 1) as nat,
        (FaceMode::Undetermined, Seq::empty(), Seq::empty()),
    );
    let flimit: u64 = nv as u64 + nf as u64 + 1;
    let ghost d1 = d as int;
    let ghost line1 = line as nat;
    let ghost verts = vertices@;
    loop
        invariant
            end <= data.len(),
            d <= end,
            flimit == nv as u64 + nf as u64 + 1,
            fgoal == off_faces_spec(data@, end as int, d as int, line as nat, flimit as nat, faces.state()),
            fgoal == off_faces_spec(data@, end as int, d1, line1, flimit as nat, (FaceMode::Undetermined, Seq::empty(), Seq::empty())),
            vgoal == Ok::<(int, nat, Seq<[Coord; 3]>), ()>((d1, line1, verts)),
            vertices@ == verts,
            vgoal == off_vertices_spec(data@, end as int, d0, 1, nv as nat, Seq::empty()),
            rfind_newline(data@, data@.len() as int) == Some(end as int),
            off_header_spec(data@, end as int) == Ok::<(u32, u32, int), ()>((nv, nf, d0)),
        ensures
            fgoal == Ok::<(nat, FaceState), ()>((line as nat, faces.state())),
        decreases (if d < end {
            end - d
        } else {
            0
        }),
    {
        if line >= flimit {
            break;
        }
        let a = match get_line_start(data, d, end)? {
            None => {
                break;
            },
            Some(a) => a,
        };
        let (face, p) = match parse_face_indices(data, a, end) {
            None => {
                return Err(());
            },
            Some(x) => x,
        };
        let next = match line_advance(data, p, end) {
            None => {
                return Err(());
            },
            Some(x) => x,
        };
        if next <= d {
            return Err(());
        }
        faces.add_face(&face);
        line = line + 1;
        d = next;
    }
    let agree = match faces.mode {
        FaceMode::Polygon => faces.strides.len() as u64 == nf as u64,
        FaceMode::Quad => (faces.indices.len() / 4) as u64 == nf as u64,
        _ => (faces.indices.len() / 3) as u64 == nf as u64,
    };
    if !agree {
        return Err(());
    }
    Ok(RawMesh { vertices, indices: faces.finish() })
}

} // verus!

verus! {

proof fn lemma_face_rest_len(s: Seq<u8>, d: int, end: int, k: nat, acc: Seq<u32>)
    ensures
        face_rest_spec(s, d, end, k, acc) matches Some((f, _)) ==> f.len() == acc.len() + k + 1,
    decreases k,
{
    if let Some((v, l)) = parse_uint_spec(s, d, end) {
        if k > 0 {
            let d1 = d + l + 1;
            if d1 <= end {
                if let Some(d2) = skip_run_spec(s, d1, end) {
                    lemma_face_rest_len(s, d2, end, (k - 1) as nat, acc.push(v));
                }
            }
        }
    }
}

proof fn lemma_off_face_len(s: Seq<u8>, d: int, end: int)
    ensures
        off_face_spec(s, d, end) matches Some((f, _)) ==> f.len() >= 3,
{
    if let Some((fl, l)) = parse_uint_spec(s, d, end) {
        let d1 = d + l + 1;
        if d1 <= end && fl >= 3 {
            if let Some(d2) = skip_run_spec(s, d1, end) {
                if let Some((v0, l0)) = parse_uint_spec(s, d2, end) {
                    let d3 = d2 + l0 + 1;
                    if d3 <= end {
                        if let Some(d4) = skip_run_spec(s, d3, end) {
                            if let Some((v1, l1)) = parse_uint_spec(s, d4, end) {
                                let d5 = d4 + l1 + 1;
                                if d5 <= end {
                                    if let Some(d6) = skip_run_spec(s, d5, end) {
                                        lemma_face_rest_len(s, d6, end, (fl - 3) as nat, seq![v0, v1]);
                                    }
                                }
                            }
                        }
                    }
                }
            }
        }
    }
}

proof fn lemma_off_faces_consistent_from(
    s: Seq<u8>,
    end: int,
    d: int,
    line: nat,
    limit: nat,
    fs: FaceState,
    lens: Seq<nat>,
) -> (lens2: Seq<nat>)
    requires
        faces_consistent(fs.0, fs.1, fs.2, lens),
    ensures
        off_faces_spec(s, end, d, line, limit, fs) matches Ok((_, r)) ==> faces_consistent(r.0, r.1, r.2, lens2),
    decreases (if d < end {
        end - d
    } else {
        0
    }),
{
    if line >= limit {
        lens
    } else {
        match line_start_spec(s, d, end) {
            Ok(Some(a)) => {
                lemma_off_face_len(s, a, end);
                match off_face_spec(s, a, end) {
                    Some((face, p)) => match line_advance_spec(s, p, end) {
                        Some(next) => if next > d {
                            lemma_add_face_consistent(fs.0, fs.1, fs.2, lens, face);
                            lemma_off_faces_consistent_from(
                                s,
                                end,
                                next,
                                line + 1,
                                limit,
                                add_face_spec(fs.0, fs.1, fs.2, face),
                                lens.push(face.len()),
                            )
                        } else {
                            lens
                        },
                        None => lens,
                    },
                    None => lens,
                }
            },
            _ => lens,
        }
    }
}

/// The face law over the complete lines of a text.
proof fn lemma_off_text_faces(s: Seq<u8>) -> (lens: Seq<nat>)
    ensures
        off_text_spec(s) matches Some(r) ==> faces_consistent(r.1, r.2, r.3, lens),
{
    let e = Seq::<nat>::empty();
    assert(sum_lens(e) == 0);
    match rfind_newline(s, s.len() as int) {
        None => e,
        Some(end) => match off_header_spec(s, end) {
            Ok((nv, nf, d)) => match off_vertices_spec(s, end, d, 1, nv as nat, Seq::empty()) {
                Ok((d2, line, verts)) => lemma_off_faces_consistent_from(
                    s,
                    end,
                    d2,
                    line,
                    (nv + nf + 1) as nat,
                    (FaceMode::Undetermined, Seq::empty(), Seq::empty()),
                    e,
                ),
                Err(_) => e,
            },
            Err(_) => e,
        },
    }
}

/// What an OFF text gives: its lines are read, the last one too where it has no `\n`;
/// `None` where a line is malformed.
pub open spec fn load_off_spec(s: Seq<u8>) -> Option<(Seq<[Coord; 3]>, FaceMode, Seq<u32>, Seq<u8>)> {
    off_text_spec(terminated(s))
}

/// Parses an OFF text (see `off_text`); a last line without `\n` is read as if it had one.
pub fn load_off_buf(data: &[u8]) -> (r: Result<RawMesh, ()>)
    ensures
        mesh_matches(r, load_off_spec(data@)),
        load_off_spec(data@) matches Some(st) ==> faces_agree(st.1, st.2, st.3),
{
    let t = terminated_copy(data);
    off_text(t.as_slice())
}

/// Every face an OFF text gives has at least three vertices, and the faces' representation
/// agrees with them: the returned list of face lengths is one with which the mode, indices
/// and strides read are consistent (so `lemma_finish_faces` decodes the result into exactly
/// those faces).
pub proof fn lemma_off_faces_consistent(s: Seq<u8>) -> (lens: Seq<nat>)
    ensures
        load_off_spec(s) matches Some(r) ==> faces_consistent(r.1, r.2, r.3, lens),
{
    lemma_off_text_faces(terminated(s))
}

/// The counts of an OFF header are the decimal values of the first two words of the counts
/// line: the returned positions `(c, e1, e)` are where the vertex count's digits start and
/// stop (a whole run of digits), and where the face count starts, at the first byte that is
/// no space after the vertex count; each count may carry a leading `+`.
pub proof fn lemma_off_counts(s: Seq<u8>, end: int) -> (w: (int, int, int))
    requires
        0 <= end <= s.len(),
    ensures
        off_header_spec(s, end) matches Ok((nv, nf, _)) ==> {
            let (c, e1, e) = w;
            let st = if s[e] == 43 {
                e + 1
            } else {
                e
            };
            &&& 0 <= c <= e1 <= e < end
            &&& forall|j: int| c <= j < e1 ==> 48 <= #[trigger] s[j] <= 57
            &&& e1 < end ==> !(48 <= s[e1] <= 57)
            &&& nv == dec_acc(s, c, e1)
            &&& forall|j: int| e1 <= j < e ==> #[trigger] s[j] == 32
            &&& s[e] != 32
            &&& nf == dec_acc(s, st, digits_end(s, st, end))
        },
{
    match off_header_spec(s, end) {
        Ok(_) => {
            let a = match line_start_spec(s, 0, end) {
                Ok(Some(a)) => a,
                _ => 0,
            };
            lemma_line_start_range(s, 0, end);
            let d = if s[a] == 79 && s[a + 1] == 70 && s[a + 2] == 70 {
                match find_from(s, a + 3, end, ByteClass::Newline) {
                    None => -1,
                    Some(q) => {
                        lemma_find_from_range(s, a + 3, end, ByteClass::Newline);
                        lemma_line_start_range(s, q + 1, end);
                        match line_start_spec(s, q + 1, end) {
                            Ok(Some(c)) => c,
                            _ => -1,
                        }
                    },
                }
            } else {
                a
            };
            let c = if s[d] == 43 {
                d + 1
            } else {
                d
            };
            lemma_find_from(s, c, end, ByteClass::NotDigit);
            let e1 = digits_end(s, c, end);
            lemma_find_from(s, e1, end, ByteClass::NotSpace);
            let e = match find_from(s, e1, end, ByteClass::NotSpace) {
                Some(x) => x,
                None => end,
            };
            (c, e1, e)
        },
        Err(_) => (0, 0, 0),
    }
}

proof fn lemma_line_start_range(s: Seq<u8>, d: int, end: int)
    requires
        0 <= d,
        end <= s.len(),
    ensures
        line_start_spec(s, d, end) matches Ok(Some(i)) ==> d <= i < end,
{
    lemma_find_from_range(s, d, end, ByteClass::NotSpace);
    if let Some(i0) = find_from(s, d, end, ByteClass::NotSpace) {
        lemma_comment_skip_range(s, end, i0);
    }
}

proof fn lemma_comment_skip_range(s: Seq<u8>, end: int, i: int)
    ensures
        comment_skip_spec(s, end, i) matches Ok(Some(r)) ==> i <= r < end,
    decreases (if i < end {
        end - i
    } else {
        0
    }),
{
    if 0 <= i < end && s[i] == 35 {
        lemma_find_from_range(s, i + 1, end, ByteClass::Newline);
        if let Some(q) = find_from(s, i + 1, end, ByteClass::Newline) {
            lemma_find_from_range(s, q + 1, end, ByteClass::NotSpace);
            if let Some(j) = find_from(s, q + 1, end, ByteClass::NotSpace) {
                lemma_comment_skip_range(s, end, j);
            }
        }
    }
}

} // verus!
