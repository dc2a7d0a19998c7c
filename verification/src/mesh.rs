use vstd::prelude::*;
use crate::scan::Coord;
use crate::surface::{FaceMode, SurfaceIndices, surface_matches};
use crate::kw::{
    kw_obj, kw_off, kw_off_uc, kw_ply, kw_stl, lit_at, matches_at, obj_bytes, off_bytes,
    off_uc_bytes, ply_bytes, stl_bytes,
};
use crate::obj::{load_obj_buf, load_obj_spec};
use crate::off::{load_off_buf, load_off_spec};
use crate::ply::{load_ply_buf, load_ply_spec};
use crate::stl::{load_stl_buf, stl_facets, stl_mesh};

verus! {

/// A parsed surface mesh: the vertices with their coordinates as the file gives them, and
/// the faces.
pub struct RawMesh {
    pub vertices: Vec<[Coord; 3]>,
    pub indices: SurfaceIndices,
}

/// What a reader's spec gives: the vertices and the state of the faces collected.
pub open spec fn mesh_matches(
    r: Result<RawMesh, ()>,
    spec: Option<(Seq<[Coord; 3]>, FaceMode, Seq<u32>, Seq<u8>)>,
) -> bool {
    match spec {
        None => r is Err,
        Some((v, m, i, s)) => r matches Ok(mesh) && mesh.vertices@ == v && surface_matches(mesh.indices, m, i, s),
    }
}

/// The position just after the last `\n` among the first `j` bytes.
pub open spec fn rfind_newline(s: Seq<u8>, j: int) -> Option<int>
    decreases j,
{
    if j <= 0 {
        None
    } else if s[j - 1] == 10 {
        Some(j)
    } else {
        rfind_newline(s, j - 1)
    }
}

/// Finds the end of the last complete line of `data`.
pub fn last_line_end(data: &[u8]) -> (r: Option<usize>)
    ensures
        r matches Some(l) ==> rfind_newline(data@, data@.len() as int) == Some(l as int),
        r is None ==> rfind_newline(data@, data@.len() as int) is None,
        r matches Some(l) ==> 1 <= l <= data@.len() && data@[l - 1] == 10,
{
    let mut j = data.len();
    while j > 0
        invariant
            j <= data@.len(),
            rfind_newline(data@, data@.len() as int) == rfind_newline(data@, j as int),
        decreases j,
    {
        if data[j - 1] == 10 {
            return Some(j);
        }
        j = j - 1;
    }
    None
}

/// The text `s` with its last line ended: a `\n` is added where the text is not empty and
/// does not end with one.
pub open spec fn terminated(s: Seq<u8>) -> Seq<u8> {
    if s.len() > 0 && s[s.len() - 1] != 10 {
        s.push(10)
    } else {
        s
    }
}

/// A copy of `data` with its last line ended (see `terminated`).
pub fn terminated_copy(data: &[u8]) -> (r: Vec<u8>)
    ensures
        r@ == terminated(data@),
{
    let mut r: Vec<u8> = Vec::new();
    let mut i: usize = 0;
    while i < data.len()
        invariant
            i <= data.len(),
            r@ == data@.subrange(0, i as int),
        decreases data.len() - i,
    {
        r.push(data[i]);
        i = i + 1;
        assert(r@ =~= data@.subrange(0, i as int));
    }
    assert(r@ =~= data@);
    if data.len() > 0 && data[data.len() - 1] != 10 {
        r.push(10);
    }
    r
}

} // verus!

verus! {

/// The mesh file formats this crate reads.
#[derive(Clone, Copy, PartialEq, Eq, Structural)]
pub enum MeshFormat {
    Obj,
    Off,
    Ply,
    Stl,
}

/// The format to read: the hint (a file extension) where it names one, else what the first
/// three bytes show (`OFF` or `ply`); `None` where neither tells.
pub open spec fn format_of(hint: Option<Seq<u8>>, s: Seq<u8>) -> Option<MeshFormat> {
    let named = match hint {
        Some(h) => if h == kw_obj() {
            Some(MeshFormat::Obj)
        } else if h == kw_off() {
            Some(MeshFormat::Off)
        } else if h == kw_ply() {
            Some(MeshFormat::Ply)
        } else if h == kw_stl() {
            Some(MeshFormat::Stl)
        } else {
            None
        },
        None => None,
    };
    match named {
        Some(f) => Some(f),
        None => if lit_at(s, 0, s.len() as int, kw_off_uc()) {
            Some(MeshFormat::Off)
        } else if lit_at(s, 0, s.len() as int, kw_ply()) {
            Some(MeshFormat::Ply)
        } else {
            None
        },
    }
}

fn same_bytes(a: &[u8], b: &[u8]) -> (r: bool)
    ensures
        r == (a@ == b@),
{
    if a.len() != b.len() {
        return false;
    }
    let r = matches_at(a, 0, a.len(), b);
    assert(r ==> a@.subrange(0, a@.len() as int) == b@);
    assert(a@.subrange(0, a@.len() as int) =~= a@);
    r
}

/// Picks the reader for the input, as `format_of` says.
pub fn detect_format(hint: Option<&[u8]>, data: &[u8]) -> (r: Option<MeshFormat>)
    ensures
        r == format_of(
            match hint {
                Some(h) => Some(h@),
                None => None,
            },
            data@,
        ),
{
    let named = match hint {
        Some(h) => if same_bytes(h, &obj_bytes()) {
            Some(MeshFormat::Obj)
        } else if same_bytes(h, &off_bytes()) {
            Some(MeshFormat::Off)
        } else if same_bytes(h, &ply_bytes()) {
            Some(MeshFormat::Ply)
        } else if same_bytes(h, &stl_bytes()) {
            Some(MeshFormat::Stl)
        } else {
            None
        },
        None => None,
    };
    match named {
        Some(f) => Some(f),
        None => if matches_at(data, 0, data.len(), &off_uc_bytes()) {
            Some(MeshFormat::Off)
        } else if matches_at(data, 0, data.len(), &ply_bytes()) {
            Some(MeshFormat::Ply)
        } else {
            None
        },
    }
}

/// Reads a mesh of the format that `detect_format` picks; `Err` where it picks none.
pub fn load_mesh_bytes(data: &[u8], hint: Option<&[u8]>) -> (r: Result<RawMesh, ()>)
    ensures
        match format_of(
            match hint {
                Some(h) => Some(h@),
                None => None,
            },
            data@,
        ) {
            None => r is Err,
            Some(MeshFormat::Obj) => mesh_matches(r, load_obj_spec(data@)),
            Some(MeshFormat::Off) => mesh_matches(r, load_off_spec(data@)),
            Some(MeshFormat::Ply) => mesh_matches(r, load_ply_spec(data@)),
            Some(MeshFormat::Stl) => match stl_facets(data@) {
                None => r is Err,
                Some(n) => r matches Ok(m) && stl_mesh(data@, n, m),
            },
        },
{
    match detect_format(hint, data) {
        None => Err(()),
        Some(MeshFormat::Obj) => load_obj_buf(data),
        Some(MeshFormat::Off) => load_off_buf(data),
        Some(MeshFormat::Ply) => load_ply_buf(data),
        Some(MeshFormat::Stl) => load_stl_buf(data),
    }
}

} // verus!
