use vstd::prelude::*;
use crate::kw::{kw_ply, lit_at, matches_at, ply_bytes};
use crate::mesh::{RawMesh, mesh_matches};
use crate::ply_ascii::{ascii_body_spec, lemma_ascii_body_tally, parse_ascii};
use crate::ply_binary::{binary_body_spec, lemma_binary_body_faces_consistent, parse_binary};
use crate::ply_body::{BodyInfos, BodyView, ParsingState, finalize_spec};
use crate::ply_header::{Format, HeaderSection, empty_head, header_lines_spec, parse_header};
use crate::scan::Coord;
use crate::surface::{FaceBuilder, FaceMode, FaceState};
use crate::surface_laws::{faces_agree, faces_consistent, lemma_tally_full, shorts, sum_lens};

verus! {

/// After a complete body, the counts the header announced must be those read, and the faces
/// must have been told apart as triangles, quads or polygons.
pub open spec fn ply_counts_ok(b: BodyView, verts: Seq<[Coord; 3]>, fs: FaceState) -> bool {
    verts.len() == b.nv && match fs.0 {
        FaceMode::Undetermined => false,
        FaceMode::Triangle => fs.1.len() / 3 == b.nf,
        FaceMode::Quad => fs.1.len() / 4 == b.nf,
        FaceMode::Polygon => fs.2.len() == b.nf,
    }
}

/// The body of a PLY file, from `q`, laid out as `b` says.
pub open spec fn ply_body_spec(s: Seq<u8>, q: int, b: BodyView) -> Option<(Seq<[Coord; 3]>, FaceMode, Seq<u32>, Seq<u8>)> {
    let len = s.len() as int;
    let body = if b.format == Format::Ascii {
        ascii_body_spec(s, len, q, 0, b, Seq::empty(), (FaceMode::Undetermined, Seq::empty(), Seq::empty()))
    } else {
        match binary_body_spec(s, len, q, b) {
            Err(_) => Err(()),
            Ok((d, st)) => Ok((d, st.0, st.1, st.2, st.3)),
        }
    };
    match body {
        Err(_) => None,
        Ok((done, _, _, v, fs)) => if done && !ply_counts_ok(b, v, fs) {
            None
        } else {
            Some((v, fs.0, fs.1, fs.2))
        },
    }
}

pub open spec fn empty_mesh() -> (Seq<[Coord; 3]>, FaceMode, Seq<u32>, Seq<u8>) {
    (Seq::empty(), FaceMode::Undetermined, Seq::empty(), Seq::empty())
}

/// What a PLY file gives. An empty input gives an empty mesh; otherwise the file must open
/// with `ply`. A header that the input ends within gives an empty mesh, a body that it ends
/// within the elements read so far; a complete body must hold the announced counts.
pub open spec fn load_ply_spec(s: Seq<u8>) -> Option<(Seq<[Coord; 3]>, FaceMode, Seq<u32>, Seq<u8>)> {
    let len = s.len() as int;
    if len == 0 {
        Some(empty_mesh())
    } else if !lit_at(s, 0, len, kw_ply()) {
        None
    } else {
        match header_lines_spec(s, len, 3, HeaderSection::Format, empty_head()) {
            Err(_) => None,
            Ok(None) => Some(empty_mesh()),
            Ok(Some((h, q))) => match finalize_spec(h) {
                None => None,
                Some(b) => ply_body_spec(s, q, b),
            },
        }
    }
}

/// Parses a PLY file, text or binary (either byte order): the header, then the vertex and
/// face elements, other elements skipped.
pub fn load_ply_buf(data: &[u8]) -> (r: Result<RawMesh, ()>)
    ensures
        mesh_matches(r, load_ply_spec(data@)),
        load_ply_spec(data@) matches Some(st) ==> (ply_faces_settled(data@) ==> faces_agree(st.1, st.2, st.3)),
{
    proof {
        let w = lemma_load_ply_faces(data@);
        if let Some(st) = load_ply_spec(data@) {
            if ply_faces_settled(data@) {
                assert(faces_consistent(st.1, st.2, st.3, w));
            }
        }
    }
    let len = data.len();
    if len == 0 {
        return Ok(RawMesh { vertices: Vec::new(), indices: FaceBuilder::new().finish() });
    }
    if !matches_at(data, 0, len, &ply_bytes()) {
        return Err(());
    }
    let mut state = ParsingState::new();
    let q = match &mut state {
        ParsingState::Header(head) => match parse_header(data, 3, len, head)? {
            None => {
                return Ok(RawMesh { vertices: Vec::new(), indices: FaceBuilder::new().finish() });
            },
            Some(q) => q,
        },
        _ => {
            return Err(());
        },
    };
    match state.finalize()? {
        ParsingState::Ascii(b) => ply_body(data, q, &b),
        ParsingState::Binary(b) => ply_body(data, q, &b),
        ParsingState::Header(_) => Err(()),
    }
}

/// Reads the body from `q`, text or binary as the header said, and checks the counts when it
/// is complete.
fn ply_body(data: &[u8], q: usize, b: &BodyInfos) -> (r: Result<RawMesh, ()>)
    requires
        q <= data.len(),
    ensures
        mesh_matches(r, ply_body_spec(data@, q as int, b@)),
{
    let len = data.len();
    let (done, vertices, faces, _, _) = match b.format {
        Format::Ascii => parse_ascii(data, len, q, b)?,
        _ => parse_binary(data, len, q, b)?,
    };
    if done {
        let ok = vertices.len() as u64 == b.nv as u64 && match faces.mode {
            FaceMode::Undetermined => false,
            FaceMode::Triangle => (faces.indices.len() / 3) as u64 == b.nf as u64,
            FaceMode::Quad => (faces.indices.len() / 4) as u64 == b.nf as u64,
            FaceMode::Polygon => faces.strides.len() as u64 == b.nf as u64,
        };
        if !ok {
            return Err(());
        }
    }
    Ok(RawMesh { vertices, indices: faces.finish() })
}

/// Every face that a PLY body gives has at least three vertices, and the faces'
/// representation agrees with them: the returned list of face lengths is one with which the
/// mode, indices and strides read are consistent. This holds of a binary body, and of a text
/// body read to its end (one that the input ends within keeps the faces of fewer than three
/// vertices it has read), of fewer than 2^32 bytes.
pub proof fn lemma_ply_faces_consistent(s: Seq<u8>, q: int, b: BodyView) -> (lens: Seq<nat>)
    requires
        b.format == Format::Ascii ==> s.len() - q <= u32::MAX,
    ensures
        ply_body_spec(s, q, b) matches Some(r) ==> (b.format != Format::Ascii || ascii_body_spec(
            s,
            s.len() as int,
            q,
            0,
            b,
            Seq::empty(),
            (FaceMode::Undetermined, Seq::empty(), Seq::empty()),
        ) matches Ok((true, _, _, _, _))) ==> faces_consistent(r.1, r.2, r.3, lens),
{
    if b.format == Format::Ascii {
        let e = Seq::<nat>::empty();
        assert(sum_lens(e) == 0);
        assert(shorts(e) == 0);
        let fs0: FaceState = (FaceMode::Undetermined, Seq::empty(), Seq::empty());
        let lens = lemma_ascii_body_tally(s, s.len() as int, q, 0, b, Seq::empty(), fs0, e, q);
        if let Ok((true, _, _, v, fs)) = ascii_body_spec(s, s.len() as int, q, 0, b, Seq::empty(), fs0) {
            if ply_counts_ok(b, v, fs) {
                lemma_tally_full(fs.0, fs.1, fs.2, lens, b.nf as nat);
            }
        }
        lens
    } else {
        lemma_binary_body_faces_consistent(s, s.len() as int, q, b)
    }
}

/// The body of the PLY file `s` is binary, or text read to its end and of fewer than 2^32
/// bytes, or there is no body to speak of (no complete header).
pub open spec fn ply_faces_settled(s: Seq<u8>) -> bool {
    let len = s.len() as int;
    match header_lines_spec(s, len, 3, HeaderSection::Format, empty_head()) {
        Ok(Some((h, q))) => match finalize_spec(h) {
            Some(b) => b.format != Format::Ascii || (len - q <= u32::MAX && ascii_body_spec(
                s,
                len,
                q,
                0,
                b,
                Seq::empty(),
                (FaceMode::Undetermined, Seq::empty(), Seq::empty()),
            ) matches Ok((true, _, _, _, _))),
            None => true,
        },
        _ => true,
    }
}

/// Every face that a PLY file gives has at least three vertices, and the faces'
/// representation agrees with them (the returned list of face lengths), where the body is
/// settled as `ply_faces_settled` says.
pub proof fn lemma_load_ply_faces(s: Seq<u8>) -> (lens: Seq<nat>)
    ensures
        load_ply_spec(s) matches Some(r) ==> (ply_faces_settled(s) ==> faces_consistent(r.1, r.2, r.3, lens)),
{
    let e = Seq::<nat>::empty();
    assert(sum_lens(e) == 0);
    let len = s.len() as int;
    if len == 0 || !lit_at(s, 0, len, kw_ply()) {
        e
    } else {
        match header_lines_spec(s, len, 3, HeaderSection::Format, empty_head()) {
            Ok(Some((h, q))) => match finalize_spec(h) {
                Some(b) => if b.format != Format::Ascii || len - q <= u32::MAX {
                    lemma_ply_faces_consistent(s, q, b)
                } else {
                    e
                },
                None => e,
            },
            _ => e,
        }
    }
}

} // verus!
