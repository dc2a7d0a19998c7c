use vstd::prelude::*;
use crate::mesh::RawMesh;
use crate::scan::Coord;
use crate::surface::SurfaceIndices;

verus! {

/// The byte at `i`, or zero past the end (the reading buffer starts zeroed).
pub open spec fn byte_or_zero(s: Seq<u8>, i: int) -> u8 {
    if 0 <= i < s.len() {
        s[i]
    } else {
        0
    }
}

/// A little-endian 32-bit word.
pub open spec fn u32_le(b0: u8, b1: u8, b2: u8, b3: u8) -> u32 {
    (b0 + b1 * 256 + b2 * 65536 + b3 * 16777216) as u32
}

/// The face count stored at bytes 80..84.
pub open spec fn stl_face_count(s: Seq<u8>) -> u32 {
    u32_le(byte_or_zero(s, 80), byte_or_zero(s, 81), byte_or_zero(s, 82), byte_or_zero(s, 83))
}

/// The text (ASCII) form of STL opens with `solid`; it is refused.
pub open spec fn stl_is_text(s: Seq<u8>) -> bool {
    s.len() >= 5 && s[0] == 115 && s[1] == 111 && s[2] == 108 && s[3] == 105 && s[4] == 100
}

/// Complete facet records after the header.
pub open spec fn stl_records(s: Seq<u8>) -> nat {
    if s.len() >= 84 {
        ((s.len() - 84) / 50) as nat
    } else {
        0
    }
}

/// Vertex `j` (0, 1 or 2) of facet `k`.
pub open spec fn stl_vertex(s: Seq<u8>, k: int, j: int) -> [Coord; 3] {
    let b = 84 + 50 * k + 12 * (j + 1);
    [
        Coord::F32Bits(u32_le(s[b], s[b + 1], s[b + 2], s[b + 3])),
        Coord::F32Bits(u32_le(s[b + 4], s[b + 5], s[b + 6], s[b + 7])),
        Coord::F32Bits(u32_le(s[b + 8], s[b + 9], s[b + 10], s[b + 11])),
    ]
}

/// The facets a binary STL file holds, as the header counts them: `Some(n)` when the file is
/// read successfully with `n` facets.
pub open spec fn stl_facets(s: Seq<u8>) -> Option<nat> {
    if s.len() == 0 {
        Some(0)
    } else if stl_is_text(s) {
        None
    } else {
        let nf = stl_face_count(s) as nat;
        if nf == 0 {
            if stl_records(s) == 0 {
                Some(0)
            } else {
                None
            }
        } else if nf <= stl_records(s) {
            Some(nf)
        } else {
            None
        }
    }
}

/// The mesh read from a binary STL file with `n` facets: three vertices per facet, each facet
/// a triangle of its own three vertices.
pub open spec fn stl_mesh(s: Seq<u8>, n: nat, m: RawMesh) -> bool {
    &&& m.vertices@.len() == 3 * n
    &&& forall|v: int| 0 <= v < 3 * n ==> #[trigger] m.vertices@[v] == stl_vertex(s, v / 3, v % 3)
    &&& m.indices matches SurfaceIndices::Triangles(t) && t@.len() == n && forall|k: int, j: int|
        0 <= k < n && 0 <= j < 3 ==> #[trigger] t@[k][j] == (3 * k + j) as u32
}

fn le_word(data: &[u8], b: usize) -> (r: u32)
    requires
        b + 4 <= data.len(),
    ensures
        r == u32_le(data@[b as int], data@[b + 1], data@[b + 2], data@[b + 3]),
{
    data[b] as u32 + data[b + 1] as u32 * 256 + data[b + 2] as u32 * 65536 + data[b + 3] as u32 * 16777216
}

fn byte_at_or_zero(data: &[u8], i: usize) -> (r: u8)
    ensures
        r == byte_or_zero(data@, i as int),
{
    if i < data.len() {
        data[i]
    } else {
        0
    }
}

/// Parses a binary STL file: an 80-byte header, the facet count, then the facet records.
pub fn load_stl_buf(data: &[u8]) -> (r: Result<RawMesh, ()>)
    ensures
        match stl_facets(data@) {
            None => r is Err,
            Some(n) => r matches Ok(m) && stl_mesh(data@, n, m),
        },
{
    let mut vertices: Vec<[Coord; 3]> = Vec::new();
    let mut tris: Vec<[u32; 3]> = Vec::new();
    if data.len() == 0 {
        return Ok(RawMesh { vertices, indices: SurfaceIndices::Triangles(tris) });
    }
    if data.len() >= 5 && data[0] == 115 && data[1] == 111 && data[2] == 108 && data[3] == 105
        && data[4] == 100 {
        return Err(());
    }
    let nf = le_word_or_zero(data);
    let records = if data.len() >= 84 {
        (data.len() - 84) / 50
    } else {
        0
    };
    if nf == 0 {
        if records == 0 {
            return Ok(RawMesh { vertices, indices: SurfaceIndices::Triangles(tris) });
        }
        return Err(());
    }
    if nf as usize > records {
        return Err(());
    }
    let n = nf as usize;
    let mut k: usize = 0;
    while k < n
        invariant
            n == stl_face_count(data@),
            n <= records == stl_records(data@),
            k <= n,
            vertices@.len() == 3 * k,
            forall|v: int| 0 <= v < 3 * k ==> #[trigger] vertices@[v] == stl_vertex(data@, v / 3, v % 3),
            tris@.len() == k,
            forall|a: int, j: int| 0 <= a < k && 0 <= j < 3 ==> #[trigger] tris@[a][j] == (3 * a + j) as u32,
        decreases n - k,
    {
        assert(data@.len() == data.len());
        assert(data@.len() >= 84);
        assert(84 + 50 * k + 50 <= data@.len()) by (nonlinear_arith)
            requires
                k < records,
                records == (data@.len() - 84) / 50,
                data@.len() >= 84,
        ;
        let rec = 84 + 50 * k;
        let mut j: usize = 0;
        while j < 3
            invariant
                rec == 84 + 50 * k,
                rec + 50 <= data@.len(),
                rec + 50 <= data.len(),
                j <= 3,
                vertices@.len() == 3 * k + j,
                forall|v: int| 0 <= v < 3 * k + j ==> #[trigger] vertices@[v] == stl_vertex(data@, v / 3, v % 3),
            decreases 3 - j,
        {
            let b = rec + 12 * (j + 1);
            let x = le_word(data, b);
            let y = le_word(data, b + 4);
            let z = le_word(data, b + 8);
            vertices.push([Coord::F32Bits(x), Coord::F32Bits(y), Coord::F32Bits(z)]);
            proof {
                let v = 3 * k + j;
                assert(v / 3 == k && v % 3 == j) by (nonlinear_arith)
                    requires v == 3 * k + j, j < 3;
                assert(vertices@[v] == stl_vertex(data@, v / 3, v % 3)) by {
                    assert(vertices@[v]@ =~= stl_vertex(data@, k as int, j as int)@);
                }
            }
            j = j + 1;
        }
        let t0 = 3 * k;
        tris.push([t0 as u32, (t0 + 1) as u32, (t0 + 2) as u32]);
        k = k + 1;
    }
    Ok(RawMesh { vertices, indices: SurfaceIndices::Triangles(tris) })
}

fn le_word_or_zero(data: &[u8]) -> (r: u32)
    ensures
        r == stl_face_count(data@),
{
    u32_from_bytes(
        byte_at_or_zero(data, 80),
        byte_at_or_zero(data, 81),
        byte_at_or_zero(data, 82),
        byte_at_or_zero(data, 83),
    )
}

fn u32_from_bytes(b0: u8, b1: u8, b2: u8, b3: u8) -> (r: u32)
    ensures
        r == u32_le(b0, b1, b2, b3),
{
    b0 as u32 + b1 as u32 * 256 + b2 as u32 * 65536 + b3 as u32 * 16777216
}

/// The little-endian 32-bit float bits at byte `b`.
pub open spec fn f32_le_at(s: Seq<u8>, b: int) -> Coord {
    Coord::F32Bits((s[b] + 256 * s[b + 1] + 65536 * s[b + 2] + 16777216 * s[b + 3]) as u32)
}

/// The layout of a binary STL mesh: facet `k`'s record starts at byte `84 + 50 k` (a 12-byte
/// normal, three 12-byte vertices, 2 attribute bytes), and vertex `3 k + j` of the mesh is
/// vertex `j` of facet `k`: the three little-endian floats at `84 + 50 k + 12 (j + 1)`.
pub proof fn lemma_stl_layout(s: Seq<u8>, n: nat, m: RawMesh)
    requires
        stl_mesh(s, n, m),
    ensures
        forall|k: int, j: int|
            0 <= k < n && 0 <= j < 3 ==> {
                let at = 84 + 50 * k + 12 * (j + 1);
                #[trigger] m.vertices@[3 * k + j] == [f32_le_at(s, at), f32_le_at(s, at + 4), f32_le_at(s, at + 8)]
            },
{
    assert forall|k: int, j: int| 0 <= k < n && 0 <= j < 3 implies {
        let at = 84 + 50 * k + 12 * (j + 1);
        #[trigger] m.vertices@[3 * k + j] == [f32_le_at(s, at), f32_le_at(s, at + 4), f32_le_at(s, at + 8)]
    } by {
        let v = 3 * k + j;
        assert(v / 3 == k && v % 3 == j) by (nonlinear_arith)
            requires
                v == 3 * k + j,
                0 <= j < 3,
                0 <= k,
        ;
        assert(0 <= v < 3 * n) by (nonlinear_arith)
            requires
                v == 3 * k + j,
                0 <= j < 3,
                0 <= k < n,
        ;
        assert(m.vertices@[v] == stl_vertex(s, k, j));
        let at = 84 + 50 * k + 12 * (j + 1);
        assert(stl_vertex(s, k, j) =~= [f32_le_at(s, at), f32_le_at(s, at + 4), f32_le_at(s, at + 8)]);
    }
}

} // verus!
