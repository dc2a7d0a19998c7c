use vstd::prelude::*;

verus! {

/// How the faces read so far are being stored.
#[derive(Clone, Copy, PartialEq, Eq, Structural)]
pub enum FaceMode {
    Triangle,
    Quad,
    Polygon,
    Undetermined,
}

/// Various indices representations
pub enum SurfaceIndices {
    Triangles(Vec<[u32; 3]>),
    Quads(Vec<[u32; 4]>),
    Polygons(Vec<u32>, Vec<u32>),
}

/// `n` copies of `b`.
pub open spec fn repeat_u8(b: u8, n: nat) -> Seq<u8> {
    Seq::new(n, |i: int| b)
}

/// What recording one more face of `n` vertices does to the mode and the strides, when
/// `prior` indices were stored before it.
pub open spec fn mode_step(mode: FaceMode, strides: Seq<u8>, prior: nat, n: nat) -> (FaceMode, Seq<u8>) {
    match mode {
        FaceMode::Polygon => (FaceMode::Polygon, strides.push(n as u8)),
        FaceMode::Undetermined => if n == 3 {
            (FaceMode::Triangle, strides)
        } else if n == 4 {
            (FaceMode::Quad, strides)
        } else {
            (FaceMode::Polygon, strides.push(n as u8))
        },
        FaceMode::Triangle => if n == 3 {
            (FaceMode::Triangle, strides)
        } else {
            (FaceMode::Polygon, repeat_u8(3, prior / 3).push(n as u8))
        },
        FaceMode::Quad => if n == 4 {
            (FaceMode::Quad, strides)
        } else {
            (FaceMode::Polygon, repeat_u8(4, prior / 4).push(n as u8))
        },
    }
}

/// The faces collected so far: mode, flat indices, strides.
pub type FaceState = (FaceMode, Seq<u32>, Seq<u8>);

/// A face of fewer than three vertices has its indices stored but leaves mode and strides alone.
pub open spec fn add_face_spec(mode: FaceMode, indices: Seq<u32>, strides: Seq<u8>, face: Seq<u32>) -> (
    FaceMode,
    Seq<u32>,
    Seq<u8>,
) {
    if face.len() >= 3 {
        let (m, s) = mode_step(mode, strides, indices.len(), face.len());
        (m, indices + face, s)
    } else {
        (mode, indices + face, strides)
    }
}

/// Collects the faces of a mesh as they are read.
pub struct FaceBuilder {
    pub mode: FaceMode,
    pub indices: Vec<u32>,
    pub strides: Vec<u8>,
}

impl FaceBuilder {
    pub open spec fn state(&self) -> (FaceMode, Seq<u32>, Seq<u8>) {
        (self.mode, self.indices@, self.strides@)
    }

    pub fn new() -> (r: Self)
        ensures
            r.state() == (FaceMode::Undetermined, Seq::<u32>::empty(), Seq::<u8>::empty()),
    {
        FaceBuilder { mode: FaceMode::Undetermined, indices: Vec::new(), strides: Vec::new() }
    }

    /// Records one face, given by the indices of its vertices.
    pub fn add_face(&mut self, face: &Vec<u32>)
        ensures
            final(self).state() == add_face_spec(old(self).mode, old(self).indices@, old(self).strides@, face@),
    {
        let prior = self.indices.len();
        let n = face.len();
        if n >= 3 {
            step_mode(&mut self.mode, &mut self.strides, prior, n);
        }
        let ghost before = self.indices@;
        let ghost mode1 = self.mode;
        let ghost strides1 = self.strides@;
        let mut j: usize = 0;
        while j < n
            invariant
                n == face@.len(),
                self.mode == mode1,
                self.strides@ == strides1,
                j <= n,
                self.indices@ == before + face@.subrange(0, j as int),
            decreases n - j,
        {
            self.indices.push(face[j]);
            j = j + 1;
            assert(face@.subrange(0, j as int) == face@.subrange(0, j - 1).push(face@[j - 1]));
        }
        assert(face@.subrange(0, n as int) == face@);
    }

    /// Turns the faces into the representation that the mode selects.
    pub fn finish(self) -> (r: SurfaceIndices)
        ensures
            surface_matches(r, self.mode, self.indices@, self.strides@),
    {
        match self.mode {
            FaceMode::Polygon => SurfaceIndices::from_polygon_strides(self.indices, self.strides),
            FaceMode::Quad => SurfaceIndices::Quads(into_quads(self.indices)),
            _ => SurfaceIndices::Triangles(into_triangles(self.indices)),
        }
    }
}

/// Records in the mode and the strides one more face of `n` vertices, `prior` indices being
/// stored before it.
pub fn step_mode(mode: &mut FaceMode, strides: &mut Vec<u8>, prior: usize, n: usize)
    ensures
        (*final(mode), final(strides)@) == mode_step(*old(mode), old(strides)@, prior as nat, n as nat),
{
    match *mode {
        FaceMode::Polygon => {
            strides.push(n as u8);
        },
        FaceMode::Undetermined => {
            if n == 3 {
                *mode = FaceMode::Triangle;
            } else if n == 4 {
                *mode = FaceMode::Quad;
            } else {
                *mode = FaceMode::Polygon;
                strides.push(n as u8);
            }
        },
        FaceMode::Triangle => {
            if n != 3 {
                *strides = repeat_vec(3, prior / 3);
                strides.push(n as u8);
                *mode = FaceMode::Polygon;
            }
        },
        FaceMode::Quad => {
            if n != 4 {
                *strides = repeat_vec(4, prior / 4);
                strides.push(n as u8);
                *mode = FaceMode::Polygon;
            }
        },
    }
}

/// A vector of `n` copies of `b`.
pub fn repeat_vec(b: u8, n: usize) -> (r: Vec<u8>)
    ensures
        r@ == repeat_u8(b, n as nat),
{
    let mut r: Vec<u8> = Vec::new();
    let mut i: usize = 0;
    while i < n
        invariant
            i <= n,
            r@ == repeat_u8(b, i as nat),
        decreases n - i,
    {
        r.push(b);
        i = i + 1;
        assert(r@ =~= repeat_u8(b, i as nat));
    }
    r
}

/// `v` cut into consecutive runs of three, a trailing incomplete run dropped.
pub open spec fn triangles_of(v: Seq<u32>, t: Seq<[u32; 3]>) -> bool {
    &&& t.len() == v.len() / 3
    &&& forall|k: int, j: int| 0 <= k < t.len() && 0 <= j < 3 ==> #[trigger] t[k][j] == v[3 * k + j]
}

/// `v` cut into consecutive runs of four, a trailing incomplete run dropped.
pub open spec fn quads_of(v: Seq<u32>, q: Seq<[u32; 4]>) -> bool {
    &&& q.len() == v.len() / 4
    &&& forall|k: int, j: int| 0 <= k < q.len() && 0 <= j < 4 ==> #[trigger] q[k][j] == v[4 * k + j]
}

/// Groups a flat list of indices by three.
pub fn into_triangles(v: Vec<u32>) -> (r: Vec<[u32; 3]>)
    ensures
        triangles_of(v@, r@),
{
    let n = v.len() / 3;
    let mut r: Vec<[u32; 3]> = Vec::new();
    let mut k: usize = 0;
    while k < n
        invariant
            n == v@.len() / 3,
            k <= n,
            r@.len() == k,
            forall|a: int, j: int| 0 <= a < k && 0 <= j < 3 ==> #[trigger] r@[a][j] == v@[3 * a + j],
        decreases n - k,
    {
        assert(3 * k + 3 <= v@.len()) by (nonlinear_arith)
            requires
                k < n,
                n == v@.len() / 3,
        ;
        assert(v@.len() == v.len());
        let b: usize = 3 * k;
        let t = [v[b], v[b + 1], v[b + 2]];
        r.push(t);
        k = k + 1;
    }
    r
}

/// Groups a flat list of indices by four.
pub fn into_quads(v: Vec<u32>) -> (r: Vec<[u32; 4]>)
    ensures
        quads_of(v@, r@),
{
    let n = v.len() / 4;
    let mut r: Vec<[u32; 4]> = Vec::new();
    let mut k: usize = 0;
    while k < n
        invariant
            n == v@.len() / 4,
            k <= n,
            r@.len() == k,
            forall|a: int, j: int| 0 <= a < k && 0 <= j < 4 ==> #[trigger] r@[a][j] == v@[4 * a + j],
        decreases n - k,
    {
        assert(4 * k + 4 <= v@.len()) by (nonlinear_arith)
            requires
                k < n,
                n == v@.len() / 4,
        ;
        assert(v@.len() == v.len());
        let b: usize = 4 * k;
        let t = [v[b], v[b + 1], v[b + 2], v[b + 3]];
        r.push(t);
        k = k + 1;
    }
    r
}

/// Sum of the first `k` strides, wrapping at 2^32.
pub open spec fn stride_sum(strides: Seq<u8>, k: int) -> u32
    decreases k,
{
    if k <= 0 {
        0
    } else {
        vstd::wrapping::u32_specs::wrapping_add(stride_sum(strides, k - 1), strides[k - 1] as u32)
    }
}

/// Where each face starts in the flat list, with the total at the end.
pub open spec fn stride_offsets(strides: Seq<u8>) -> Seq<u32> {
    Seq::new(strides.len() + 1, |k: int| stride_sum(strides, k))
}

/// Sum of the first `k` strides of 32 bits, wrapping at 2^32.
pub open spec fn stride_sum_u32(strides: Seq<u32>, k: int) -> u32
    decreases k,
{
    if k <= 0 {
        0
    } else {
        vstd::wrapping::u32_specs::wrapping_add(stride_sum_u32(strides, k - 1), strides[k - 1])
    }
}

pub open spec fn stride_offsets_u32(strides: Seq<u32>) -> Seq<u32> {
    Seq::new(strides.len() + 1, |k: int| stride_sum_u32(strides, k))
}

impl SurfaceIndices {
    pub fn from_triangles(v: Vec<[u32; 3]>) -> (r: Self)
        ensures
            r matches SurfaceIndices::Triangles(t) && t@ == v@,
    {
        SurfaceIndices::Triangles(v)
    }

    pub fn from_quads(v: Vec<[u32; 4]>) -> (r: Self)
        ensures
            r matches SurfaceIndices::Quads(q) && q@ == v@,
    {
        SurfaceIndices::Quads(v)
    }

    /// Polygons given by a flat list of indices and the number of vertices of each face;
    /// the face lengths become start offsets.
    pub fn from_polygon_strides(indices: Vec<u32>, strides: Vec<u8>) -> (r: Self)
        ensures
            r matches SurfaceIndices::Polygons(i, o) && i@ == indices@ && o@ == stride_offsets(strides@),
    {
        let mut offsets: Vec<u32> = Vec::new();
        let mut count: u32 = 0;
        let mut k: usize = 0;
        while k < strides.len()
            invariant
                k <= strides@.len(),
                count == stride_sum(strides@, k as int),
                offsets@ == stride_offsets(strides@).subrange(0, k as int),
            decreases strides@.len() - k,
        {
            offsets.push(count);
            count = count.wrapping_add(strides[k] as u32);
            k = k + 1;
            assert(offsets@ =~= stride_offsets(strides@).subrange(0, k as int));
        }
        offsets.push(count);
        assert(offsets@ =~= stride_offsets(strides@));
        SurfaceIndices::Polygons(indices, offsets)
    }

    /// As `from_polygon_strides`, with face lengths of 32 bits.
    pub fn from_polygon_strides_u32(indices: Vec<u32>, strides: Vec<u32>) -> (r: Self)
        ensures
            r matches SurfaceIndices::Polygons(i, o) && i@ == indices@ && o@ == stride_offsets_u32(strides@),
    {
        let mut offsets: Vec<u32> = Vec::new();
        let mut count: u32 = 0;
        let mut k: usize = 0;
        while k < strides.len()
            invariant
                k <= strides@.len(),
                count == stride_sum_u32(strides@, k as int),
                offsets@ == stride_offsets_u32(strides@).subrange(0, k as int),
            decreases strides@.len() - k,
        {
            offsets.push(count);
            count = count.wrapping_add(strides[k]);
            k = k + 1;
            assert(offsets@ =~= stride_offsets_u32(strides@).subrange(0, k as int));
        }
        offsets.push(count);
        assert(offsets@ =~= stride_offsets_u32(strides@));
        SurfaceIndices::Polygons(indices, offsets)
    }
}

/// The representation that the mode selects for the stored faces.
pub open spec fn surface_matches(r: SurfaceIndices, mode: FaceMode, indices: Seq<u32>, strides: Seq<u8>) -> bool {
    match mode {
        FaceMode::Polygon => r matches SurfaceIndices::Polygons(i, o) && i@ == indices && o@
            == stride_offsets(strides),
        FaceMode::Quad => r matches SurfaceIndices::Quads(q) && quads_of(indices, q@),
        _ => r matches SurfaceIndices::Triangles(t) && triangles_of(indices, t@),
    }
}

} // verus!
