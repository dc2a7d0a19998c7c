use vstd::prelude::*;
use crate::ply_header::{Format, HeadView, HeadingInfos, UselessElem, empty_head, groups_view};
use crate::ply_types::Type;

verus! {

/// What the body readers need from a complete header.
pub struct BodyInfos {
    pub format: Format,
    pub nv: u32,
    pub v_x_stride_i: u32,
    pub v_y_stride_i: u32,
    pub v_z_stride_i: u32,
    pub v_stride: Vec<Type>,
    pub nf: u32,
    pub i_stride_i: u32,
    pub i_stride: Vec<Type>,
    pub v_first_over_f: bool,
    pub useless_before: Vec<UselessElem>,
    pub useless_between: Vec<UselessElem>,
    /// Number of elements before the first vertex or face (text bodies).
    pub useless_before_count: u32,
    /// Line at which the vertices start (text bodies).
    pub vertex_start: u32,
    /// Line at which the faces start (text bodies).
    pub face_start: u32,
}

/// The mathematical content of `BodyInfos`.
pub struct BodyView {
    pub format: Format,
    pub nv: u32,
    pub vx: u32,
    pub vy: u32,
    pub vz: u32,
    pub v_stride: Seq<Type>,
    pub nf: u32,
    pub i_stride_i: u32,
    pub i_stride: Seq<Type>,
    pub v_first: bool,
    pub before: Seq<(u32, Seq<Type>)>,
    pub between: Seq<(u32, Seq<Type>)>,
    pub ub: u32,
    pub vertex_start: u32,
    pub face_start: u32,
}

impl View for BodyInfos {
    type V = BodyView;

    open spec fn view(&self) -> BodyView {
        BodyView {
            format: self.format,
            nv: self.nv,
            vx: self.v_x_stride_i,
            vy: self.v_y_stride_i,
            vz: self.v_z_stride_i,
            v_stride: self.v_stride@,
            nf: self.nf,
            i_stride_i: self.i_stride_i,
            i_stride: self.i_stride@,
            v_first: self.v_first_over_f,
            before: groups_view(self.useless_before@),
            between: groups_view(self.useless_between@),
            ub: self.useless_before_count,
            vertex_start: self.vertex_start,
            face_start: self.face_start,
        }
    }
}

/// Sum of the counts of the first `k` groups, in 32 bits that wrap.
pub open spec fn count_sum(g: Seq<(u32, Seq<Type>)>, k: int) -> u32
    decreases k,
{
    if k <= 0 {
        0
    } else {
        vstd::wrapping::u32_specs::wrapping_add(count_sum(g, k - 1), g[k - 1].0)
    }
}

pub open spec fn wadd(a: u32, b: u32) -> u32 {
    vstd::wrapping::u32_specs::wrapping_add(a, b)
}

/// A complete header gives the body's layout; `None` where the format, a coordinate or the
/// vertex-index list was never declared.
pub open spec fn finalize_spec(h: HeadView) -> Option<BodyView> {
    match (h.format, h.vx, h.vy, h.vz, h.i_stride_i) {
        (Some(format), Some(vx), Some(vy), Some(vz), Some(ii)) => {
            let ub = count_sum(h.before, h.before.len() as int);
            let bt = count_sum(h.between, h.between.len() as int);
            Some(
                BodyView {
                    format,
                    nv: h.nv,
                    vx,
                    vy,
                    vz,
                    v_stride: h.v_stride,
                    nf: h.nf,
                    i_stride_i: ii,
                    i_stride: h.i_stride,
                    v_first: h.v_first,
                    before: h.before,
                    between: h.between,
                    ub,
                    vertex_start: if h.v_first {
                        ub
                    } else {
                        wadd(wadd(ub, bt), h.nf)
                    },
                    face_start: if !h.v_first {
                        ub
                    } else {
                        wadd(wadd(ub, bt), h.nv)
                    },
                },
            )
        },
        _ => None,
    }
}

fn count_sum_exec(g: &Vec<UselessElem>) -> (r: u32)
    ensures
        r == count_sum(groups_view(g@), g@.len() as int),
{
    let mut acc: u32 = 0;
    let mut k: usize = 0;
    while k < g.len()
        invariant
            k <= g@.len(),
            acc == count_sum(groups_view(g@), k as int),
        decreases g@.len() - k,
    {
        acc = acc.wrapping_add(g[k].count);
        k = k + 1;
    }
    acc
}

/// Turns a complete header into the body's layout.
pub fn finalize(head: HeadingInfos) -> (r: Result<BodyInfos, ()>)
    ensures
        match finalize_spec(head@) {
            None => r is Err,
            Some(b) => r matches Ok(bi) && bi@ == b,
        },
{
    let vx = match head.v_x_stride_i {
        Some(v) => v,
        None => {
            return Err(());
        },
    };
    let vy = match head.v_y_stride_i {
        Some(v) => v,
        None => {
            return Err(());
        },
    };
    let vz = match head.v_z_stride_i {
        Some(v) => v,
        None => {
            return Err(());
        },
    };
    let ii = match head.i_stride_i {
        Some(v) => v,
        None => {
            return Err(());
        },
    };
    let format = match head.format {
        Some(f) => f,
        None => {
            return Err(());
        },
    };
    let ub = count_sum_exec(&head.useless_before);
    let bt = count_sum_exec(&head.useless_between);
    let vertex_start = if head.v_first_over_f {
        ub
    } else {
        ub.wrapping_add(bt).wrapping_add(head.nf)
    };
    let face_start = if !head.v_first_over_f {
        ub
    } else {
        ub.wrapping_add(bt).wrapping_add(head.nv)
    };
    Ok(
        BodyInfos {
            format,
            nv: head.nv,
            v_x_stride_i: vx,
            v_y_stride_i: vy,
            v_z_stride_i: vz,
            v_stride: head.v_stride,
            nf: head.nf,
            i_stride_i: ii,
            i_stride: head.i_stride,
            v_first_over_f: head.v_first_over_f,
            useless_before: head.useless_before,
            useless_between: head.useless_between,
            useless_before_count: ub,
            vertex_start,
            face_start,
        },
    )
}

/// Where the reading of a PLY file stands: in the header, or in a text or binary body laid
/// out as the header said.
pub enum ParsingState {
    Header(HeadingInfos),
    Ascii(BodyInfos),
    Binary(BodyInfos),
}

impl ParsingState {
    /// The state before the header's first line.
    pub fn new() -> (r: Self)
        ensures
            r matches ParsingState::Header(h) && h@ == empty_head(),
    {
        ParsingState::Header(HeadingInfos::new())
    }

    /// Leaves a complete header for the body it announces: text or binary as its format
    /// says. `Err` where the header lacks a format, a coordinate or the face list, or where the
    /// state is already past the header.
    pub fn finalize(self) -> (r: Result<ParsingState, ()>)
        ensures
            match self {
                ParsingState::Header(h) => match finalize_spec(h@) {
                    None => r is Err,
                    Some(b) => r matches Ok(st) && if b.format == Format::Ascii {
                        st matches ParsingState::Ascii(bi) && bi@ == b
                    } else {
                        st matches ParsingState::Binary(bi) && bi@ == b
                    },
                },
                _ => r is Err,
            },
    {
        match self {
            ParsingState::Header(head) => {
                let b = finalize(head)?;
                match b.format {
                    Format::Ascii => Ok(ParsingState::Ascii(b)),
                    _ => Ok(ParsingState::Binary(b)),
                }
            },
            _ => Err(()),
        }
    }
}

} // verus!
