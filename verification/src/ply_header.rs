use vstd::prelude::*;
use crate::kw::{
    ascii_1_0_bytes, binary_be_1_0_bytes, binary_le_1_0_bytes, element_bytes, element_sp_bytes,
    end_head_bytes, er_bytes, face_sp_bytes, format_sp_bytes, kw_ascii_1_0, kw_binary_be_1_0,
    kw_binary_le_1_0, kw_element, kw_element_sp, kw_end_head, kw_er, kw_face_sp, kw_format_sp,
    kw_property, kw_sp, kw_vertex_index, kw_vertex_indices, kw_vertex_sp, kw_x, kw_y, kw_z, lit_at,
    matches_at, property_bytes, sp_bytes, vertex_index_bytes, vertex_indices_bytes, vertex_sp_bytes,
    word_equals, word_is, x_bytes, y_bytes, z_bytes,
};
use crate::ply_types::{Type, type_spec};
use crate::scan::{ByteClass, find_class, find_from, lemma_find_from_range, parse_int, parse_uint_spec};

verus! {

/// How the body of a PLY file is stored.
#[derive(Clone, Copy, PartialEq, Eq, Structural)]
pub enum Format {
    Ascii,
    BigEndian,
    LittleEndian,
}

/// The part of the header being read: before any element, in the vertex element, in the face
/// element, or in an element this reader does not use.
#[derive(Clone, Copy, PartialEq, Eq, Structural)]
pub enum HeaderSection {
    Format,
    Vertex,
    Face,
    Useless,
}

/// An element the reader skips: how many there are, and the types of their properties.
pub struct UselessElem {
    pub count: u32,
    pub types: Vec<Type>,
}

/// What the header has told so far.
pub struct HeadingInfos {
    pub format: Option<Format>,
    pub nv: u32,
    pub v_x_stride_i: Option<u32>,
    pub v_y_stride_i: Option<u32>,
    pub v_z_stride_i: Option<u32>,
    pub v_stride: Vec<Type>,
    pub nf: u32,
    pub i_stride_i: Option<u32>,
    pub i_stride: Vec<Type>,
    pub v_first_over_f: bool,
    pub useless_before: Vec<UselessElem>,
    pub useless_between: Vec<UselessElem>,
}

/// The mathematical content of `HeadingInfos`.
pub struct HeadView {
    pub format: Option<Format>,
    pub nv: u32,
    pub vx: Option<u32>,
    pub vy: Option<u32>,
    pub vz: Option<u32>,
    pub v_stride: Seq<Type>,
    pub nf: u32,
    pub i_stride_i: Option<u32>,
    pub i_stride: Seq<Type>,
    pub v_first: bool,
    pub before: Seq<(u32, Seq<Type>)>,
    pub between: Seq<(u32, Seq<Type>)>,
}

pub open spec fn groups_view(v: Seq<UselessElem>) -> Seq<(u32, Seq<Type>)> {
    v.map_values(|e: UselessElem| (e.count, e.types@))
}

impl View for HeadingInfos {
    type V = HeadView;

    open spec fn view(&self) -> HeadView {
        HeadView {
            format: self.format,
            nv: self.nv,
            vx: self.v_x_stride_i,
            vy: self.v_y_stride_i,
            vz: self.v_z_stride_i,
            v_stride: self.v_stride@,
            nf: self.nf,
            i_stride_i: self.i_stride_i,
            i_stride: self.i_stride@,
            v_first: self.v_first_over_f,
            before: groups_view(self.useless_before@),
            between: groups_view(self.useless_between@),
        }
    }
}

pub open spec fn empty_head() -> HeadView {
    HeadView {
        format: None,
        nv: 0,
        vx: None,
        vy: None,
        vz: None,
        v_stride: Seq::empty(),
        nf: 0,
        i_stride_i: None,
        i_stride: Seq::empty(),
        v_first: false,
        before: Seq::empty(),
        between: Seq::empty(),
    }
}

impl HeadingInfos {
    pub fn new() -> (r: Self)
        ensures
            r@ == empty_head(),
    {
        let r = HeadingInfos {
            format: None,
            nv: 0,
            v_x_stride_i: None,
            v_y_stride_i: None,
            v_z_stride_i: None,
            v_stride: Vec::new(),
            nf: 0,
            i_stride_i: None,
            i_stride: Vec::new(),
            v_first_over_f: false,
            useless_before: Vec::new(),
            useless_between: Vec::new(),
        };
        assert(groups_view(r.useless_before@) =~= Seq::empty());
        assert(groups_view(r.useless_between@) =~= Seq::empty());
        r
    }
}

/// Where the next header (or text body) line starts, and how long it is with its `\n`.
/// Lines that are blank or open with `c` (comment) or `o` (obj_info) are skipped, as are
/// leading spaces. `None` where no complete line is left.
pub open spec fn next_line_spec(s: Seq<u8>, i: int, end: int) -> Option<(int, int)>
    decreases (if i < end {
        end - i
    } else {
        0
    }),
{
    if i >= end || i < 0 {
        None
    } else if s[i] != 32 {
        if s[i] == 99 || s[i] == 111 || s[i] == 10 || s[i] == 13 {
            match find_from(s, i, end, ByteClass::Newline) {
                None => None,
                Some(q) => {
                    proof {
                        lemma_find_from_range(s, i, end, ByteClass::Newline);
                    }
                    next_line_spec(s, q + 1, end)
                },
            }
        } else {
            match find_from(s, i, end, ByteClass::Newline) {
                None => None,
                Some(q) => Some((i, q - i + 1)),
            }
        }
    } else {
        next_line_spec(s, i + 1, end)
    }
}

/// Finds the next line of a PLY header or text body from `i0`: blank lines and lines that
/// open with `c` (comment) or `o` (obj_info) are passed over, as are leading spaces. Where
/// that line's content starts and how long it is with its `\n` (as `next_line_spec` says);
/// `None` where no complete line is left before `end`.
pub fn get_next_line_start_and_end(data: &[u8], i0: usize, end: usize) -> (r: Option<(usize, usize)>)
    requires
        end <= data.len(),
    ensures
        r matches Some((a, l)) ==> next_line_spec(data@, i0 as int, end as int) == Some((a as int, l as int))
            && i0 <= a && a + l <= end && l >= 1,
        r is None ==> next_line_spec(data@, i0 as int, end as int) is None,
{
    let ghost goal = next_line_spec(data@, i0 as int, end as int);
    let mut i = i0;
    while i < end
        invariant
            end <= data.len(),
            i0 <= i,
            goal == next_line_spec(data@, i as int, end as int),
            goal == next_line_spec(data@, i0 as int, end as int),
        decreases end - i,
    {
        let c = data[i];
        if c != 32 {
            let q = find_class(data, i, end, ByteClass::Newline)?;
            if c == 99 || c == 111 || c == 10 || c == 13 {
                i = q + 1;
            } else {
                return Some((i, q - i + 1));
            }
        } else {
            i = i + 1;
        }
    }
    None
}

/// The count of an element this reader skips: the first word after the first space.
pub open spec fn skipped_count_spec(s: Seq<u8>, t: int, end: int) -> Option<u32> {
    match find_from(s, t, end, ByteClass::Space) {
        None => None,
        Some(sp) => match find_from(s, sp, end, ByteClass::NotSpace) {
            None => None,
            Some(ns) => match parse_uint_spec(s, ns, end) {
                None => None,
                Some((n, _)) => Some(n),
            },
        },
    }
}

/// The count at `p`.
pub open spec fn count_at(s: Seq<u8>, p: int, end: int) -> Option<u32> {
    match parse_uint_spec(s, p, end) {
        None => None,
        Some((n, _)) => Some(n),
    }
}

/// A property line at `a` ("property <type> <name>"): its type and where its name lies.
pub open spec fn property_spec(s: Seq<u8>, a: int, end: int) -> Option<(Type, int, int)> {
    match type_spec(s, a + 9, end) {
        None => None,
        Some((t, l)) => {
            let ns = a + 9 + l;
            if ns > end {
                None
            } else {
                match find_from(s, ns, end, ByteClass::BelowBang) {
                    None => None,
                    Some(ne) => Some((t, ns, ne)),
                }
            }
        },
    }
}

pub open spec fn push_group(g: Seq<(u32, Seq<Type>)>, n: u32) -> Seq<(u32, Seq<Type>)> {
    g.push((n, Seq::empty()))
}

pub open spec fn push_type_last(g: Seq<(u32, Seq<Type>)>, t: Type) -> Seq<(u32, Seq<Type>)> {
    g.update(g.len() - 1, (g.last().0, g.last().1.push(t)))
}

pub open spec fn is_end_header(s: Seq<u8>, a: int, end: int) -> bool {
    lit_at(s, a, end, kw_end_head()) && lit_at(s, a + 8, end, kw_er())
}

pub open spec fn is_property(s: Seq<u8>, a: int, end: int) -> bool {
    lit_at(s, a, end, kw_property()) && lit_at(s, a + 8, end, kw_sp())
}

/// A header line at `a` while no element has been opened.
pub open spec fn format_line_spec(s: Seq<u8>, a: int, end: int, h: HeadView) -> Result<Option<(HeaderSection, HeadView)>, ()> {
    if lit_at(s, a, end, kw_format_sp()) {
        let r = a + 7;
        if lit_at(s, r, end, kw_ascii_1_0()) {
            Ok(Some((HeaderSection::Format, HeadView { format: Some(Format::Ascii), ..h })))
        } else if lit_at(s, r, end, kw_binary_le_1_0()) {
            Ok(Some((HeaderSection::Format, HeadView { format: Some(Format::LittleEndian), ..h })))
        } else if lit_at(s, r, end, kw_binary_be_1_0()) {
            Ok(Some((HeaderSection::Format, HeadView { format: Some(Format::BigEndian), ..h })))
        } else {
            Err(())
        }
    } else if lit_at(s, a, end, kw_element()) && a + 7 < end && s[a + 7] == 32 {
        let t = a + 8;
        if lit_at(s, t, end, kw_vertex_sp()) {
            match count_at(s, t + 7, end) {
                None => Err(()),
                Some(n) => Ok(Some((HeaderSection::Vertex, HeadView { nv: n, v_first: true, ..h }))),
            }
        } else if lit_at(s, t, end, kw_face_sp()) {
            match count_at(s, t + 5, end) {
                None => Err(()),
                Some(n) => Ok(Some((HeaderSection::Face, HeadView { nf: n, v_first: false, ..h }))),
            }
        } else {
            match skipped_count_spec(s, t, end) {
                None => Err(()),
                Some(n) => Ok(Some((HeaderSection::Useless, HeadView { before: push_group(h.before, n), ..h }))),
            }
        }
    } else {
        Err(())
    }
}

/// A header line at `a` within the vertex element.
pub open spec fn vertex_line_spec(s: Seq<u8>, a: int, end: int, h: HeadView) -> Result<Option<(HeaderSection, HeadView)>, ()> {
    if lit_at(s, a, end, kw_element_sp()) {
        let t = a + 8;
        if lit_at(s, t, end, kw_vertex_sp()) {
            Err(())
        } else if lit_at(s, t, end, kw_face_sp()) {
            if h.nf != 0 {
                Err(())
            } else {
                match count_at(s, t + 5, end) {
                    None => Err(()),
                    Some(n) => Ok(Some((HeaderSection::Face, HeadView { nf: n, ..h }))),
                }
            }
        } else if h.nf == 0 {
            match skipped_count_spec(s, t, end) {
                None => Err(()),
                Some(n) => Ok(
                    Some((HeaderSection::Useless, HeadView { between: push_group(h.between, n), ..h })),
                ),
            }
        } else {
            Ok(Some((HeaderSection::Useless, h)))
        }
    } else if is_property(s, a, end) {
        match property_spec(s, a, end) {
            None => Err(()),
            Some((t, ns, ne)) => {
                let k = h.v_stride.len() as u32;
                let h1 = if t is Single && word_is(s, ns, ne, kw_x()) {
                    HeadView { vx: Some(k), ..h }
                } else if t is Single && word_is(s, ns, ne, kw_y()) {
                    HeadView { vy: Some(k), ..h }
                } else if t is Single && word_is(s, ns, ne, kw_z()) {
                    HeadView { vz: Some(k), ..h }
                } else {
                    h
                };
                Ok(Some((HeaderSection::Vertex, HeadView { v_stride: h1.v_stride.push(t), ..h1 })))
            },
        }
    } else if is_end_header(s, a, end) {
        Ok(None)
    } else {
        Err(())
    }
}

/// A header line at `a` within the face element.
pub open spec fn face_line_spec(s: Seq<u8>, a: int, end: int, h: HeadView) -> Result<Option<(HeaderSection, HeadView)>, ()> {
    if lit_at(s, a, end, kw_element_sp()) {
        let t = a + 8;
        if lit_at(s, t, end, kw_face_sp()) {
            Err(())
        } else if lit_at(s, t, end, kw_vertex_sp()) {
            if h.nv != 0 {
                Err(())
            } else {
                match count_at(s, t + 7, end) {
                    None => Err(()),
                    Some(n) => Ok(Some((HeaderSection::Vertex, HeadView { nv: n, ..h }))),
                }
            }
        } else if h.nv == 0 {
            match skipped_count_spec(s, t, end) {
                None => Err(()),
                Some(n) => Ok(
                    Some((HeaderSection::Useless, HeadView { between: push_group(h.between, n), ..h })),
                ),
            }
        } else {
            Ok(Some((HeaderSection::Useless, h)))
        }
    } else if is_property(s, a, end) {
        match property_spec(s, a, end) {
            None => Err(()),
            Some((t, ns, ne)) => {
                let h1 = if t is List && (word_is(s, ns, ne, kw_vertex_index()) || word_is(
                    s,
                    ns,
                    ne,
                    kw_vertex_indices(),
                )) {
                    HeadView { i_stride_i: Some(h.i_stride.len() as u32), ..h }
                } else {
                    h
                };
                Ok(Some((HeaderSection::Face, HeadView { i_stride: h1.i_stride.push(t), ..h1 })))
            },
        }
    } else if is_end_header(s, a, end) {
        Ok(None)
    } else {
        Err(())
    }
}

/// A header line at `a` within an element the reader skips.
pub open spec fn useless_line_spec(s: Seq<u8>, a: int, end: int, h: HeadView) -> Result<Option<(HeaderSection, HeadView)>, ()> {
    if lit_at(s, a, end, kw_element_sp()) {
        let t = a + 8;
        if lit_at(s, t, end, kw_face_sp()) {
            if h.nf != 0 {
                Err(())
            } else {
                let vf = if h.nv != 0 {
                    true
                } else {
                    h.v_first
                };
                match count_at(s, t + 5, end) {
                    None => Err(()),
                    Some(n) => Ok(Some((HeaderSection::Face, HeadView { nf: n, v_first: vf, ..h }))),
                }
            }
        } else if lit_at(s, t, end, kw_vertex_sp()) {
            if h.nv != 0 {
                Err(())
            } else {
                let vf = if h.nf != 0 {
                    false
                } else {
                    h.v_first
                };
                match count_at(s, t + 7, end) {
                    None => Err(()),
                    Some(n) => Ok(Some((HeaderSection::Vertex, HeadView { nv: n, v_first: vf, ..h }))),
                }
            }
        } else {
            match skipped_count_spec(s, t, end) {
                None => Err(()),
                Some(n) => if h.between.len() != 0 {
                    Ok(Some((HeaderSection::Useless, HeadView { between: push_group(h.between, n), ..h })))
                } else {
                    Ok(Some((HeaderSection::Useless, HeadView { before: push_group(h.before, n), ..h })))
                },
            }
        }
    } else if lit_at(s, a, end, kw_property()) {
        if lit_at(s, a + 8, end, kw_sp()) && (h.nf == 0 || h.nv == 0) {
            match type_spec(s, a + 9, end) {
                None => Err(()),
                Some((t, _)) => if h.between.len() != 0 {
                    Ok(Some((HeaderSection::Useless, HeadView { between: push_type_last(h.between, t), ..h })))
                } else if h.before.len() != 0 {
                    Ok(Some((HeaderSection::Useless, HeadView { before: push_type_last(h.before, t), ..h })))
                } else {
                    Err(())
                },
            }
        } else {
            Ok(Some((HeaderSection::Useless, h)))
        }
    } else if is_end_header(s, a, end) {
        Ok(None)
    } else {
        Err(())
    }
}

/// One header line at `a`: `Ok(None)` at `end_header`, else the next section and header state.
pub open spec fn header_line_spec(s: Seq<u8>, a: int, end: int, sec: HeaderSection, h: HeadView) -> Result<Option<(HeaderSection, HeadView)>, ()> {
    match sec {
        HeaderSection::Format => format_line_spec(s, a, end, h),
        HeaderSection::Vertex => vertex_line_spec(s, a, end, h),
        HeaderSection::Face => face_line_spec(s, a, end, h),
        HeaderSection::Useless => useless_line_spec(s, a, end, h),
    }
}

/// The header from `p` on: `Ok(Some((h, q)))` when `end_header` is reached, the body starting
/// at `q`; `Ok(None)` when the lines run out first.
#[verifier::opaque]
pub open spec fn header_lines_spec(s: Seq<u8>, end: int, p: int, sec: HeaderSection, h: HeadView) -> Result<Option<(HeadView, int)>, ()>
    decreases (if p < end {
        end - p
    } else {
        0
    }),
{
    match next_line_spec(s, p, end) {
        None => Ok(None),
        Some((a, l)) => {
            let np = a + l;
            match header_line_spec(s, a, end, sec, h) {
                Err(_) => Err(()),
                Ok(None) => Ok(Some((h, np))),
                Ok(Some((sec2, h2))) => if np <= p || p >= end {
                    Err(())
                } else {
                    header_lines_spec(s, end, np, sec2, h2)
                },
            }
        },
    }
}

} // verus!

verus! {

fn push_group_exec(v: &mut Vec<UselessElem>, n: u32)
    ensures
        groups_view(final(v)@) == push_group(groups_view(old(v)@), n),
{
    let ghost old_v = v@;
    v.push(UselessElem { count: n, types: Vec::new() });
    assert(groups_view(v@) =~= push_group(groups_view(old_v), n));
}

fn push_type_last_exec(v: &mut Vec<UselessElem>, t: Type)
    requires
        old(v)@.len() > 0,
    ensures
        groups_view(final(v)@) == push_type_last(groups_view(old(v)@), t),
{
    let ghost old_v = v@;
    let mut e = v.pop().unwrap();
    e.types.push(t);
    v.push(e);
    assert(groups_view(v@) =~= push_type_last(groups_view(old_v), t));
}

fn count_at_exec(data: &[u8], p: usize, end: usize) -> (r: Option<u32>)
    requires
        end <= data.len(),
    ensures
        r == count_at(data@, p as int, end as int),
{
    match parse_int(data, p, end) {
        None => None,
        Some((n, _)) => Some(n),
    }
}

fn skipped_count(data: &[u8], t: usize, end: usize) -> (r: Option<u32>)
    requires
        end <= data.len(),
    ensures
        r == skipped_count_spec(data@, t as int, end as int),
{
    let sp = find_class(data, t, end, ByteClass::Space)?;
    let ns = find_class(data, sp, end, ByteClass::NotSpace)?;
    count_at_exec(data, ns, end)
}

fn property_line(data: &[u8], a: usize, end: usize) -> (r: Option<(Type, usize, usize)>)
    requires
        end <= data.len(),
        a + 9 <= end,
    ensures
        r matches Some((t, ns, ne)) ==> property_spec(data@, a as int, end as int) == Some((t, ns as int, ne as int)) && ne <= end,
        r is None ==> property_spec(data@, a as int, end as int) is None,
{
    let (t, l) = Type::parse(data, a + 9, end)?;
    if l > end - (a + 9) {
        return None;
    }
    let ns = a + 9 + l;
    let ne = find_class(data, ns, end, ByteClass::BelowBang)?;
    Some((t, ns, ne))
}

pub open spec fn step_matches(
    r: Result<Option<HeaderSection>, ()>,
    spec: Result<Option<(HeaderSection, HeadView)>, ()>,
    old_h: HeadView,
    new_h: HeadView,
) -> bool {
    match spec {
        Err(_) => r is Err,
        Ok(None) => r == Ok::<Option<HeaderSection>, ()>(None) && new_h == old_h,
        Ok(Some((sec, h))) => r == Ok::<Option<HeaderSection>, ()>(Some(sec)) && new_h == h,
    }
}

fn format_line(data: &[u8], a: usize, end: usize, head: &mut HeadingInfos) -> (r: Result<Option<HeaderSection>, ()>)
    requires
        end <= data.len(),
    ensures
        step_matches(r, format_line_spec(data@, a as int, end as int, old(head)@), old(head)@, final(head)@),
{
    if matches_at(data, a, end, &format_sp_bytes()) {
        let r = a + 7;
        if matches_at(data, r, end, &ascii_1_0_bytes()) {
            head.format = Some(Format::Ascii);
        } else if matches_at(data, r, end, &binary_le_1_0_bytes()) {
            head.format = Some(Format::LittleEndian);
        } else if matches_at(data, r, end, &binary_be_1_0_bytes()) {
            head.format = Some(Format::BigEndian);
        } else {
            return Err(());
        }
        Ok(Some(HeaderSection::Format))
    } else if matches_at(data, a, end, &element_bytes()) && a + 7 < end && data[a + 7] == 32 {
        let t = a + 8;
        if matches_at(data, t, end, &vertex_sp_bytes()) {
            let n = match count_at_exec(data, t + 7, end) {
                None => {
                    return Err(());
                },
                Some(n) => n,
            };
            head.nv = n;
            head.v_first_over_f = true;
            Ok(Some(HeaderSection::Vertex))
        } else if matches_at(data, t, end, &face_sp_bytes()) {
            let n = match count_at_exec(data, t + 5, end) {
                None => {
                    return Err(());
                },
                Some(n) => n,
            };
            head.nf = n;
            head.v_first_over_f = false;
            Ok(Some(HeaderSection::Face))
        } else {
            let n = match skipped_count(data, t, end) {
                None => {
                    return Err(());
                },
                Some(n) => n,
            };
            push_group_exec(&mut head.useless_before, n);
            Ok(Some(HeaderSection::Useless))
        }
    } else {
        Err(())
    }
}

fn is_end_header_exec(data: &[u8], a: usize, end: usize) -> (r: bool)
    requires
        end <= data.len(),
    ensures
        r == is_end_header(data@, a as int, end as int),
{
    matches_at(data, a, end, &end_head_bytes()) && a + 8 <= end && matches_at(data, a + 8, end, &er_bytes())
}

fn is_property_exec(data: &[u8], a: usize, end: usize) -> (r: bool)
    requires
        end <= data.len(),
    ensures
        r == is_property(data@, a as int, end as int),
        r ==> a + 9 <= end,
{
    matches_at(data, a, end, &property_bytes()) && a + 8 <= end && matches_at(data, a + 8, end, &sp_bytes())
}

fn vertex_line(data: &[u8], a: usize, end: usize, head: &mut HeadingInfos) -> (r: Result<Option<HeaderSection>, ()>)
    requires
        end <= data.len(),
    ensures
        step_matches(r, vertex_line_spec(data@, a as int, end as int, old(head)@), old(head)@, final(head)@),
{
    if matches_at(data, a, end, &element_sp_bytes()) {
        let t = a + 8;
        if matches_at(data, t, end, &vertex_sp_bytes()) {
            Err(())
        } else if matches_at(data, t, end, &face_sp_bytes()) {
            if head.nf != 0 {
                return Err(());
            }
            let n = match count_at_exec(data, t + 5, end) {
                None => {
                    return Err(());
                },
                Some(n) => n,
            };
            head.nf = n;
            Ok(Some(HeaderSection::Face))
        } else if head.nf == 0 {
            let n = match skipped_count(data, t, end) {
                None => {
                    return Err(());
                },
                Some(n) => n,
            };
            push_group_exec(&mut head.useless_between, n);
            Ok(Some(HeaderSection::Useless))
        } else {
            Ok(Some(HeaderSection::Useless))
        }
    } else if is_property_exec(data, a, end) {
        let (t, ns, ne) = match property_line(data, a, end) {
            None => {
                return Err(());
            },
            Some(x) => x,
        };
        let k = head.v_stride.len() as u32;
        let single = match t {
            Type::Single(_) => true,
            _ => false,
        };
        if single && word_equals(data, ns, ne, &x_bytes()) {
            head.v_x_stride_i = Some(k);
        } else if single && word_equals(data, ns, ne, &y_bytes()) {
            head.v_y_stride_i = Some(k);
        } else if single && word_equals(data, ns, ne, &z_bytes()) {
            head.v_z_stride_i = Some(k);
        }
        head.v_stride.push(t);
        Ok(Some(HeaderSection::Vertex))
    } else if is_end_header_exec(data, a, end) {
        Ok(None)
    } else {
        Err(())
    }
}

fn face_line(data: &[u8], a: usize, end: usize, head: &mut HeadingInfos) -> (r: Result<Option<HeaderSection>, ()>)
    requires
        end <= data.len(),
    ensures
        step_matches(r, face_line_spec(data@, a as int, end as int, old(head)@), old(head)@, final(head)@),
{
    if matches_at(data, a, end, &element_sp_bytes()) {
        let t = a + 8;
        if matches_at(data, t, end, &face_sp_bytes()) {
            Err(())
        } else if matches_at(data, t, end, &vertex_sp_bytes()) {
            if head.nv != 0 {
                return Err(());
            }
            let n = match count_at_exec(data, t + 7, end) {
                None => {
                    return Err(());
                },
                Some(n) => n,
            };
            head.nv = n;
            Ok(Some(HeaderSection::Vertex))
        } else if head.nv == 0 {
            let n = match skipped_count(data, t, end) {
                None => {
                    return Err(());
                },
                Some(n) => n,
            };
            push_group_exec(&mut head.useless_between, n);
            Ok(Some(HeaderSection::Useless))
        } else {
            Ok(Some(HeaderSection::Useless))
        }
    } else if is_property_exec(data, a, end) {
        let (t, ns, ne) = match property_line(data, a, end) {
            None => {
                return Err(());
            },
            Some(x) => x,
        };
        let list = match t {
            Type::List(_, _) => true,
            _ => false,
        };
        if list && (word_equals(data, ns, ne, &vertex_index_bytes()) || word_equals(
            data,
            ns,
            ne,
            &vertex_indices_bytes(),
        )) {
            head.i_stride_i = Some(head.i_stride.len() as u32);
        }
        head.i_stride.push(t);
        Ok(Some(HeaderSection::Face))
    } else if is_end_header_exec(data, a, end) {
        Ok(None)
    } else {
        Err(())
    }
}

fn useless_line(data: &[u8], a: usize, end: usize, head: &mut HeadingInfos) -> (r: Result<Option<HeaderSection>, ()>)
    requires
        end <= data.len(),
    ensures
        step_matches(r, useless_line_spec(data@, a as int, end as int, old(head)@), old(head)@, final(head)@),
{
    if matches_at(data, a, end, &element_sp_bytes()) {
        let t = a + 8;
        if matches_at(data, t, end, &face_sp_bytes()) {
            if head.nf != 0 {
                return Err(());
            }
            let n = match count_at_exec(data, t + 5, end) {
                None => {
                    return Err(());
                },
                Some(n) => n,
            };
            if head.nv != 0 {
                head.v_first_over_f = true;
            }
            head.nf = n;
            Ok(Some(HeaderSection::Face))
        } else if matches_at(data, t, end, &vertex_sp_bytes()) {
            if head.nv != 0 {
                return Err(());
            }
            let n = match count_at_exec(data, t + 7, end) {
                None => {
                    return Err(());
                },
                Some(n) => n,
            };
            if head.nf != 0 {
                head.v_first_over_f = false;
            }
            head.nv = n;
            Ok(Some(HeaderSection::Vertex))
        } else {
            let n = match skipped_count(data, t, end) {
                None => {
                    return Err(());
                },
                Some(n) => n,
            };
            if head.useless_between.len() != 0 {
                push_group_exec(&mut head.useless_between, n);
            } else {
                push_group_exec(&mut head.useless_before, n);
            }
            Ok(Some(HeaderSection::Useless))
        }
    } else if matches_at(data, a, end, &property_bytes()) {
        if a + 8 <= end && matches_at(data, a + 8, end, &sp_bytes()) && (head.nf == 0 || head.nv == 0) {
            let (t, _) = match Type::parse(data, a + 9, end) {
                None => {
                    return Err(());
                },
                Some(x) => x,
            };
            if head.useless_between.len() != 0 {
                push_type_last_exec(&mut head.useless_between, t);
            } else if head.useless_before.len() != 0 {
                push_type_last_exec(&mut head.useless_before, t);
            } else {
                return Err(());
            }
        }
        Ok(Some(HeaderSection::Useless))
    } else if is_end_header_exec(data, a, end) {
        Ok(None)
    } else {
        Err(())
    }
}

/// Reads header lines from `p` until `end_header`. `Ok(Some(q))` with the body
/// starting at `q`; `Ok(None)` when the lines run out first.
pub fn parse_header(data: &[u8], p0: usize, end: usize, head: &mut HeadingInfos) -> (r: Result<Option<usize>, ()>)
    requires
        end <= data.len(),
    ensures
        match header_lines_spec(data@, end as int, p0 as int, HeaderSection::Format, old(head)@) {
            Err(_) => r is Err,
            Ok(None) => r == Ok::<Option<usize>, ()>(None),
            Ok(Some((h, q))) => r == Ok::<Option<usize>, ()>(Some(q as usize)) && final(head)@ == h && 0 <= q <= end,
        },
{
    reveal(header_lines_spec);
    let ghost goal = header_lines_spec(data@, end as int, p0 as int, HeaderSection::Format, head@);
    let ghost h0 = head@;
    let mut section = HeaderSection::Format;
    let mut p = p0;
    loop
        invariant
            end <= data.len(),
            goal == header_lines_spec(data@, end as int, p0 as int, HeaderSection::Format, h0),
            h0 == old(head)@,
            goal == header_lines_spec(data@, end as int, p as int, section, head@),
        decreases (if p < end {
            end - p
        } else {
            0
        }),
    {
        proof {
            reveal(header_lines_spec);
        }
        let (a, l) = match get_next_line_start_and_end(data, p, end) {
            None => {
                return Ok(None);
            },
            Some(x) => x,
        };
        let np = a + l;
        let step = match section {
            HeaderSection::Format => format_line(data, a, end, head),
            HeaderSection::Vertex => vertex_line(data, a, end, head),
            HeaderSection::Face => face_line(data, a, end, head),
            HeaderSection::Useless => useless_line(data, a, end, head),
        };
        match step {
            Err(_) => {
                return Err(());
            },
            Ok(None) => {
                return Ok(Some(np));
            },
            Ok(Some(sec2)) => {
                if np <= p || p >= end {
                    return Err(());
                }
                section = sec2;
                p = np;
            },
        }
    }
}

} // verus!
