use vstd::prelude::*;
use crate::surface::{FaceMode, SurfaceIndices, add_face_spec, stride_offsets, stride_sum, surface_matches};

verus! {

/// Total number of indices that faces of lengths `lens` take.
pub open spec fn sum_lens(lens: Seq<nat>) -> nat
    decreases lens.len(),
{
    if lens.len() == 0 {
        0
    } else {
        sum_lens(lens.drop_last()) + lens.last()
    }
}

/// The state of a face builder agrees with having recorded faces of lengths `lens`, each of
/// at least three vertices.
pub open spec fn faces_consistent(mode: FaceMode, indices: Seq<u32>, strides: Seq<u8>, lens: Seq<nat>) -> bool {
    &&& indices.len() == sum_lens(lens)
    &&& forall|k: int| 0 <= k < lens.len() ==> #[trigger] lens[k] >= 3
    &&& match mode {
        FaceMode::Undetermined => lens.len() == 0 && strides.len() == 0,
        FaceMode::Triangle => forall|k: int| 0 <= k < lens.len() ==> #[trigger] lens[k] == 3,
        FaceMode::Quad => forall|k: int| 0 <= k < lens.len() ==> #[trigger] lens[k] == 4,
        FaceMode::Polygon => strides == Seq::new(lens.len(), |k: int| lens[k] as u8),
    }
}

/// The faces' state describes some list of faces, each of at least three vertices, in the
/// form its mode gives (see `faces_consistent`).
pub open spec fn faces_agree(mode: FaceMode, indices: Seq<u32>, strides: Seq<u8>) -> bool {
    exists|lens: Seq<nat>| #[trigger] faces_consistent(mode, indices, strides, lens)
}

/// The flat list of indices cut into faces of lengths `lens`.
pub open spec fn split_faces(indices: Seq<u32>, lens: Seq<nat>) -> Seq<Seq<u32>> {
    Seq::new(
        lens.len(),
        |k: int| indices.subrange(sum_lens(lens.take(k)) as int, sum_lens(lens.take(k + 1)) as int),
    )
}

/// The faces that a representation describes.
pub open spec fn faces_of(r: SurfaceIndices) -> Seq<Seq<u32>> {
    match r {
        SurfaceIndices::Triangles(t) => Seq::new(t@.len(), |k: int| t@[k]@),
        SurfaceIndices::Quads(q) => Seq::new(q@.len(), |k: int| q@[k]@),
        SurfaceIndices::Polygons(i, o) => Seq::new(
            (o@.len() - 1) as nat,
            |k: int| i@.subrange(o@[k] as int, o@[k + 1] as int),
        ),
    }
}

proof fn lemma_sum_lens_take_push(lens: Seq<nat>, k: int)
    requires
        0 <= k < lens.len(),
    ensures
        sum_lens(lens.take(k + 1)) == sum_lens(lens.take(k)) + lens[k],
{
    assert(lens.take(k + 1).drop_last() =~= lens.take(k));
}

proof fn lemma_sum_lens_push(lens: Seq<nat>, n: nat)
    ensures
        sum_lens(lens.push(n)) == sum_lens(lens) + n,
{
    assert(lens.push(n).drop_last() =~= lens);
}

proof fn lemma_sum_lens_uniform(lens: Seq<nat>, c: nat)
    requires
        forall|k: int| 0 <= k < lens.len() ==> #[trigger] lens[k] == c,
    ensures
        sum_lens(lens) == c * lens.len(),
    decreases lens.len(),
{
    if lens.len() > 0 {
        lemma_sum_lens_uniform(lens.drop_last(), c);
        assert(c * lens.len() == c * (lens.len() - 1) + c) by (nonlinear_arith);
    }
}

proof fn lemma_sum_lens_take_mono(lens: Seq<nat>, a: int, b: int)
    requires
        0 <= a <= b <= lens.len(),
    ensures
        sum_lens(lens.take(a)) <= sum_lens(lens.take(b)),
    decreases b - a,
{
    if a < b {
        lemma_sum_lens_take_mono(lens, a, b - 1);
        lemma_sum_lens_take_push(lens, b - 1);
    }
}

/// Recording a face of at least three vertices keeps the builder's state in agreement with
/// the list of face lengths recorded: whatever mode the builder is in, its mode and strides
/// still describe every face read so far.
pub proof fn lemma_add_face_consistent(
    mode: FaceMode,
    indices: Seq<u32>,
    strides: Seq<u8>,
    lens: Seq<nat>,
    face: Seq<u32>,
)
    requires
        faces_consistent(mode, indices, strides, lens),
        face.len() >= 3,
    ensures
        ({
            let (m, i, s) = add_face_spec(mode, indices, strides, face);
            faces_consistent(m, i, s, lens.push(face.len()))
        }),
{
    let lens2 = lens.push(face.len());
    let (m, i, s) = add_face_spec(mode, indices, strides, face);
    lemma_sum_lens_push(lens, face.len());
    assert forall|k: int| 0 <= k < lens2.len() implies #[trigger] lens2[k] >= 3 by {
        if k < lens.len() {
            assert(lens2[k] == lens[k]);
        }
    }
    match mode {
        FaceMode::Triangle => {
            if face.len() != 3 {
                lemma_sum_lens_uniform(lens, 3);
                assert(indices.len() / 3 == lens.len());
                assert(s =~= Seq::new(lens2.len(), |k: int| lens2[k] as u8));
            }
        },
        FaceMode::Quad => {
            if face.len() != 4 {
                lemma_sum_lens_uniform(lens, 4);
                assert(indices.len() / 4 == lens.len());
                assert(s =~= Seq::new(lens2.len(), |k: int| lens2[k] as u8));
            }
        },
        FaceMode::Polygon => {
            assert(s =~= Seq::new(lens2.len(), |k: int| lens2[k] as u8));
        },
        FaceMode::Undetermined => {
            if face.len() != 3 && face.len() != 4 {
                assert(s =~= Seq::new(lens2.len(), |k: int| lens2[k] as u8));
            }
        },
    }
}

proof fn lemma_stride_sum_exact(strides: Seq<u8>, lens: Seq<nat>, k: int)
    requires
        strides == Seq::new(lens.len(), |j: int| lens[j] as u8),
        forall|j: int| 0 <= j < lens.len() ==> #[trigger] lens[j] < 256,
        sum_lens(lens) <= u32::MAX,
        0 <= k <= lens.len(),
    ensures
        stride_sum(strides, k) == sum_lens(lens.take(k)),
    decreases k,
{
    if k > 0 {
        lemma_stride_sum_exact(strides, lens, k - 1);
        lemma_sum_lens_take_push(lens, k - 1);
        lemma_sum_lens_take_mono(lens, k, lens.len() as int);
        assert(lens.take(lens.len() as int) =~= lens);
        assert(strides[k - 1] as u32 == lens[k - 1]);
    }
}

/// When the builder's state agrees with faces of lengths `lens` (each under 256 vertices,
/// and no more than 2^32 - 1 indices in all), the representation that `FaceBuilder::finish`
/// produces describes exactly those faces, in order.
pub proof fn lemma_finish_faces(
    r: SurfaceIndices,
    mode: FaceMode,
    indices: Seq<u32>,
    strides: Seq<u8>,
    lens: Seq<nat>,
)
    requires
        faces_consistent(mode, indices, strides, lens),
        surface_matches(r, mode, indices, strides),
        forall|k: int| 0 <= k < lens.len() ==> #[trigger] lens[k] < 256,
        indices.len() <= u32::MAX,
    ensures
        faces_of(r) == split_faces(indices, lens),
{
    match mode {
        FaceMode::Polygon => {
            let o = stride_offsets(strides);
            assert forall|k: int| 0 <= k <= lens.len() implies #[trigger] o[k] == sum_lens(lens.take(k)) by {
                lemma_stride_sum_exact(strides, lens, k);
            }
            assert(faces_of(r) =~= split_faces(indices, lens)) by {
                assert forall|k: int| 0 <= k < lens.len() implies #[trigger] faces_of(r)[k] == split_faces(indices, lens)[k] by {
                    assert(o[k] == sum_lens(lens.take(k)));
                    assert(o[k + 1] == sum_lens(lens.take(k + 1)));
                }
            }
        },
        FaceMode::Quad => {
            lemma_sum_lens_uniform(lens, 4);
            if let SurfaceIndices::Quads(q) = r {
                assert forall|k: int| 0 <= k < lens.len() implies #[trigger] faces_of(r)[k] == split_faces(indices, lens)[k] by {
                    lemma_sum_lens_uniform(lens.take(k), 4);
                    lemma_sum_lens_uniform(lens.take(k + 1), 4);
                    assert(4 * k + 4 <= indices.len()) by (nonlinear_arith)
                        requires k < lens.len(), indices.len() == 4 * lens.len();
                    assert(q@[k]@ =~= indices.subrange(4 * k, 4 * k + 4)) by {
                        assert forall|j: int| 0 <= j < 4 implies q@[k]@[j] == indices[4 * k + j] by {
                            assert(q@[k][j] == indices[4 * k + j]);
                        }
                    }
                }
                assert(faces_of(r) =~= split_faces(indices, lens));
            }
        },
        _ => {
            if mode == FaceMode::Undetermined {
                assert(lens.len() == 0);
            }
            lemma_sum_lens_uniform(lens, 3);
            if let SurfaceIndices::Triangles(t) = r {
                assert forall|k: int| 0 <= k < lens.len() implies #[trigger] faces_of(r)[k] == split_faces(indices, lens)[k] by {
                    lemma_sum_lens_uniform(lens.take(k), 3);
                    lemma_sum_lens_uniform(lens.take(k + 1), 3);
                    assert(3 * k + 3 <= indices.len()) by (nonlinear_arith)
                        requires k < lens.len(), indices.len() == 3 * lens.len();
                    assert(t@[k]@ =~= indices.subrange(3 * k, 3 * k + 3)) by {
                        assert forall|j: int| 0 <= j < 3 implies t@[k]@[j] == indices[3 * k + j] by {
                            assert(t@[k][j] == indices[3 * k + j]);
                        }
                    }
                }
                assert(faces_of(r) =~= split_faces(indices, lens));
            }
        },
    }
}

/// How many of the faces of lengths `lens` have fewer than three vertices.
pub open spec fn shorts(lens: Seq<nat>) -> nat
    decreases lens.len(),
{
    if lens.len() == 0 {
        0
    } else {
        shorts(lens.drop_last()) + if lens.last() < 3 {
            1nat
        } else {
            0nat
        }
    }
}

/// The state of a face builder agrees with having been handed faces of lengths `lens`, some
/// of them perhaps of fewer than three vertices (their indices are stored, the mode and the
/// strides left alone): without such faces it is `faces_consistent`; with them, the mode's
/// count of faces falls short of `lens.len()`.
pub open spec fn faces_tally(mode: FaceMode, indices: Seq<u32>, strides: Seq<u8>, lens: Seq<nat>) -> bool {
    &&& indices.len() == sum_lens(lens)
    &&& shorts(lens) == 0 ==> faces_consistent(mode, indices, strides, lens)
    &&& match mode {
        FaceMode::Undetermined => strides.len() == 0 && forall|k: int| 0 <= k < lens.len() ==> #[trigger] lens[k] < 3,
        FaceMode::Triangle => forall|k: int| 0 <= k < lens.len() && #[trigger] lens[k] >= 3 ==> lens[k] == 3,
        FaceMode::Quad => forall|k: int| 0 <= k < lens.len() && #[trigger] lens[k] >= 3 ==> lens[k] == 4,
        FaceMode::Polygon => strides.len() + (if shorts(lens) > 0 {
            1int
        } else {
            0int
        }) <= lens.len(),
    }
}

proof fn lemma_shorts_push(lens: Seq<nat>, n: nat)
    ensures
        shorts(lens.push(n)) == shorts(lens) + if n < 3 {
            1nat
        } else {
            0nat
        },
{
    assert(lens.push(n).drop_last() =~= lens);
}

proof fn lemma_shorts_zero(lens: Seq<nat>)
    ensures
        shorts(lens) == 0 <==> forall|k: int| 0 <= k < lens.len() ==> #[trigger] lens[k] >= 3,
    decreases lens.len(),
{
    if lens.len() > 0 {
        let d = lens.drop_last();
        lemma_shorts_zero(d);
        if shorts(lens) == 0 {
            assert forall|k: int| 0 <= k < lens.len() implies #[trigger] lens[k] >= 3 by {
                if k < d.len() {
                    assert(d[k] == lens[k]);
                }
            }
        }
        if forall|k: int| 0 <= k < lens.len() ==> #[trigger] lens[k] >= 3 {
            assert forall|k: int| 0 <= k < d.len() implies #[trigger] d[k] >= 3 by {
                assert(d[k] == lens[k]);
            }
            assert(lens[lens.len() - 1] >= 3);
        }
    }
}

proof fn lemma_sum_bound(lens: Seq<nat>, c: nat, w: nat)
    requires
        c >= 3,
        w + 2 <= c,
        forall|k: int| 0 <= k < lens.len() && #[trigger] lens[k] >= 3 ==> lens[k] == c,
    ensures
        sum_lens(lens) + (if shorts(lens) > 0 {
            w as int
        } else {
            0int
        }) <= c * lens.len(),
    decreases lens.len(),
{
    if lens.len() > 0 {
        let d = lens.drop_last();
        assert forall|k: int| 0 <= k < d.len() && #[trigger] d[k] >= 3 implies d[k] == c by {
            assert(d[k] == lens[k]);
        }
        lemma_sum_bound(d, c, w);
        assert(c * lens.len() == c * d.len() + c) by (nonlinear_arith)
            requires
                lens.len() == d.len() + 1,
        ;
        let n = lens.last();
        assert(lens[lens.len() - 1] == n);
    }
}

/// Handing the builder one more face keeps it in agreement with the lengths handed to it,
/// whatever that face's length.
pub proof fn lemma_tally_add(mode: FaceMode, indices: Seq<u32>, strides: Seq<u8>, lens: Seq<nat>, face: Seq<u32>)
    requires
        faces_tally(mode, indices, strides, lens),
    ensures
        ({
            let (m, i, s) = add_face_spec(mode, indices, strides, face);
            faces_tally(m, i, s, lens.push(face.len()))
        }),
{
    let n = face.len();
    let lens2 = lens.push(n);
    let (m, i, st) = add_face_spec(mode, indices, strides, face);
    lemma_sum_lens_push(lens, n);
    lemma_shorts_push(lens, n);
    lemma_shorts_zero(lens);
    lemma_shorts_zero(lens2);
    assert forall|k: int| 0 <= k < lens.len() implies #[trigger] lens2[k] == lens[k] by {}
    if shorts(lens2) == 0 {
        lemma_add_face_consistent(mode, indices, strides, lens, face);
    }
    match mode {
        FaceMode::Triangle => {
            if n >= 3 && n != 3 {
                lemma_sum_bound(lens, 3, 0);
                lemma_sum_bound(lens, 3, 1);
                assert(st.len() == indices.len() / 3 + 1);
            }
        },
        FaceMode::Quad => {
            if n >= 3 && n != 4 {
                lemma_sum_bound(lens, 4, 0);
                lemma_sum_bound(lens, 4, 1);
                assert(st.len() == indices.len() / 4 + 1);
            }
        },
        _ => {},
    }
}

/// Where the builder agrees with the lengths handed to it, at most `nf` faces were handed
/// to it, and its mode counts `nf` faces, no face was short: its state is consistent.
pub proof fn lemma_tally_full(mode: FaceMode, indices: Seq<u32>, strides: Seq<u8>, lens: Seq<nat>, nf: nat)
    requires
        faces_tally(mode, indices, strides, lens),
        lens.len() <= nf,
        match mode {
            FaceMode::Undetermined => false,
            FaceMode::Triangle => indices.len() / 3 == nf,
            FaceMode::Quad => indices.len() / 4 == nf,
            FaceMode::Polygon => strides.len() == nf,
        },
    ensures
        faces_consistent(mode, indices, strides, lens),
{
    match mode {
        FaceMode::Triangle => lemma_sum_bound(lens, 3, 1),
        FaceMode::Quad => lemma_sum_bound(lens, 4, 1),
        _ => {},
    }
}

/// Cutting the indices with one more face appended, by the lengths with its length
/// appended, gives the faces cut before followed by that face.
pub proof fn lemma_split_faces_push(indices: Seq<u32>, lens: Seq<nat>, face: Seq<u32>)
    requires
        indices.len() == sum_lens(lens),
    ensures
        split_faces(indices + face, lens.push(face.len())) == split_faces(indices, lens).push(face),
{
    let l2 = lens.push(face.len());
    let all = indices + face;
    assert(l2.take(lens.len() as int) =~= lens);
    lemma_sum_lens_push(lens, face.len());
    assert(l2.take(lens.len() as int + 1) =~= l2);
    assert forall|k: int| 0 <= k < lens.len() implies #[trigger] split_faces(all, l2)[k] == split_faces(
        indices,
        lens,
    )[k] by {
        assert(l2.take(k) =~= lens.take(k));
        assert(l2.take(k + 1) =~= lens.take(k + 1));
        lemma_sum_lens_take_mono(lens, k, k + 1);
        lemma_sum_lens_take_mono(lens, k + 1, lens.len() as int);
        assert(lens.take(lens.len() as int) =~= lens);
        assert(all.subrange(sum_lens(lens.take(k)) as int, sum_lens(lens.take(k + 1)) as int) =~= indices.subrange(
            sum_lens(lens.take(k)) as int,
            sum_lens(lens.take(k + 1)) as int,
        ));
    }
    assert(all.subrange(indices.len() as int, all.len() as int) =~= face);
    assert(split_faces(all, l2) =~= split_faces(indices, lens).push(face));
}

} // verus!
