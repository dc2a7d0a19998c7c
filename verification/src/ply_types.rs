use vstd::prelude::*;
use crate::kw::{
    char_bytes, doub_bytes, floa_bytes, int_sp_bytes, kw_char, kw_doub, kw_floa, kw_int_sp, kw_le,
    kw_le_sp, kw_list, kw_r_sp, kw_rt_sp, kw_shor, kw_sp, kw_t_sp, kw_ucha, kw_uint, kw_usho, le_bytes,
    le_sp_bytes, lit_at, list_bytes, matches_at, r_sp_bytes, rt_sp_bytes, shor_bytes, sp_bytes,
    t_sp_bytes, ucha_bytes, uint_bytes, usho_bytes,
};
use crate::scan::{ByteClass, Coord, find_class, find_from, parse_int, parse_uint_spec};

verus! {

/// A scalar type of a PLY property.
#[derive(Clone, Copy, PartialEq, Eq, Structural)]
pub enum RawType {
    Char,
    UChar,
    Short,
    UShort,
    Int,
    UInt,
    Float,
    Double,
}

/// A PLY property: a scalar, or a list with the types of its count and of its items.
#[derive(Clone, Copy, PartialEq, Eq, Structural)]
pub enum Type {
    Single(RawType),
    List(RawType, RawType),
}

/// Size in bytes of a scalar of type `t`.
pub open spec fn raw_len(t: RawType) -> nat {
    match t {
        RawType::Char | RawType::UChar => 1,
        RawType::Short | RawType::UShort => 2,
        RawType::Int | RawType::UInt | RawType::Float => 4,
        RawType::Double => 8,
    }
}

/// A scalar type name at `p`, followed by a space, and how many bytes the name and the space
/// take. (`double` is recognised without its space but counted with it.)
pub open spec fn raw_type_spec(s: Seq<u8>, p: int, end: int) -> Option<(RawType, int)> {
    if lit_at(s, p, end, kw_char()) && lit_at(s, p + 4, end, kw_sp()) {
        Some((RawType::Char, 5))
    } else if lit_at(s, p, end, kw_ucha()) && lit_at(s, p + 4, end, kw_r_sp()) {
        Some((RawType::UChar, 6))
    } else if lit_at(s, p, end, kw_shor()) && lit_at(s, p + 4, end, kw_t_sp()) {
        Some((RawType::Short, 6))
    } else if lit_at(s, p, end, kw_usho()) && lit_at(s, p + 4, end, kw_rt_sp()) {
        Some((RawType::UShort, 7))
    } else if lit_at(s, p, end, kw_int_sp()) {
        Some((RawType::Int, 4))
    } else if lit_at(s, p, end, kw_uint()) && lit_at(s, p + 4, end, kw_sp()) {
        Some((RawType::UInt, 5))
    } else if lit_at(s, p, end, kw_floa()) && lit_at(s, p + 4, end, kw_t_sp()) {
        Some((RawType::Float, 6))
    } else if lit_at(s, p, end, kw_doub()) && lit_at(s, p + 4, end, kw_le()) {
        Some((RawType::Double, 7))
    } else {
        None
    }
}

/// A property type at `p` and how many bytes it takes (with its trailing space).
pub open spec fn type_spec(s: Seq<u8>, p: int, end: int) -> Option<(Type, int)> {
    if lit_at(s, p, end, kw_list()) && lit_at(s, p + 4, end, kw_sp()) {
        let r = p + 4;
        match find_from(s, r + 1, end, ByteClass::NotSpace) {
            None => None,
            Some(q1) => match raw_type_spec(s, q1, end) {
                None => None,
                Some((t1, l1)) => if q1 + l1 > end {
                    None
                } else {
                    match find_from(s, q1 + l1, end, ByteClass::NotSpace) {
                        None => None,
                        Some(q2) => match raw_type_spec(s, q2, end) {
                            None => None,
                            Some((t2, l2)) => if q2 + l2 > end {
                            None
                        } else {
                            Some((Type::List(t1, t2), q2 + l2 - p))
                        },
                        },
                    }
                },
            },
        }
    } else if lit_at(s, p, end, kw_doub()) {
        if lit_at(s, p + 4, end, kw_le_sp()) {
            Some((Type::Single(RawType::Double), 7))
        } else {
            None
        }
    } else {
        match raw_type_spec(s, p, end) {
            Some((t, l)) => Some((Type::Single(t), l)),
            None => None,
        }
    }
}

/// The value of two bytes, in the given byte order.
pub open spec fn u16_of(b0: u8, b1: u8, big_endian: bool) -> u32 {
    if big_endian {
        (b0 * 256 + b1) as u32
    } else {
        (b1 * 256 + b0) as u32
    }
}

/// The value of four bytes, in the given byte order.
pub open spec fn u32_of(b0: u8, b1: u8, b2: u8, b3: u8, big_endian: bool) -> u32 {
    if big_endian {
        (b0 * 16777216 + b1 * 65536 + b2 * 256 + b3) as u32
    } else {
        (b3 * 16777216 + b2 * 65536 + b1 * 256 + b0) as u32
    }
}

/// The value of eight bytes, in the given byte order.
pub open spec fn u64_of(b: Seq<u8>, big_endian: bool) -> u64
    recommends
        b.len() == 8,
{
    if big_endian {
        (b[0] * 0x100000000000000 + b[1] * 0x1000000000000 + b[2] * 0x10000000000 + b[3]
            * 0x100000000 + b[4] * 0x1000000 + b[5] * 0x10000 + b[6] * 0x100 + b[7]) as u64
    } else {
        (b[7] * 0x100000000000000 + b[6] * 0x1000000000000 + b[5] * 0x10000000000 + b[4]
            * 0x100000000 + b[3] * 0x1000000 + b[2] * 0x10000 + b[1] * 0x100 + b[0]) as u64
    }
}

/// An unsigned integer of type `t` at `p`: `Err` for a float type, `Ok(None)` where the bytes
/// run out.
pub open spec fn binary_uint_spec(t: RawType, s: Seq<u8>, p: int, end: int, big_endian: bool) -> Result<Option<u32>, ()> {
    match t {
        RawType::Float | RawType::Double => Err(()),
        _ => if p + raw_len(t) > end {
            Ok(None)
        } else {
            Ok(
                Some(
                    match t {
                        RawType::Char | RawType::UChar => s[p] as u32,
                        RawType::Short | RawType::UShort => u16_of(s[p], s[p + 1], big_endian),
                        _ => u32_of(s[p], s[p + 1], s[p + 2], s[p + 3], big_endian),
                    },
                ),
            )
        },
    }
}

/// A coordinate of type `t` at `p`, or `None` where the bytes run out. Integers of every
/// width are taken as unsigned.
pub open spec fn binary_float_spec(t: RawType, s: Seq<u8>, p: int, end: int, big_endian: bool) -> Option<Coord> {
    if p + raw_len(t) > end {
        None
    } else {
        Some(
            match t {
                RawType::Char | RawType::UChar => Coord::Unsigned(s[p] as u32),
                RawType::Short | RawType::UShort => Coord::Unsigned(u16_of(s[p], s[p + 1], big_endian)),
                RawType::Int | RawType::UInt => Coord::Unsigned(
                    u32_of(s[p], s[p + 1], s[p + 2], s[p + 3], big_endian),
                ),
                RawType::Float => Coord::F32Bits(u32_of(s[p], s[p + 1], s[p + 2], s[p + 3], big_endian)),
                RawType::Double => Coord::F64Bits(u64_of(s.subrange(p, p + 8), big_endian)),
            },
        )
    }
}

/// Skips `k` words (a word: spaces, then bytes up to the next space); `None` where one is
/// missing.
pub open spec fn skip_words_spec(s: Seq<u8>, i: int, end: int, k: nat) -> Option<int>
    decreases k,
{
    if k == 0 {
        Some(i)
    } else {
        match find_from(s, i, end, ByteClass::NotSpace) {
            None => None,
            Some(a) => match find_from(s, a, end, ByteClass::Space) {
                None => None,
                Some(b) => skip_words_spec(s, b, end, (k - 1) as nat),
            },
        }
    }
}

/// How far a text property of type `t` at `p` reaches: a scalar over its word and the
/// spaces after; a list over its count, its items and the spaces after.
pub open spec fn skip_ascii_spec(t: Type, s: Seq<u8>, p: int, end: int) -> Option<int> {
    match t {
        Type::Single(_) => match find_from(s, p, end, ByteClass::Space) {
            None => None,
            Some(q) => match find_from(s, q, end, ByteClass::NotSpace) {
                None => None,
                Some(j) => Some(j - p),
            },
        },
        Type::List(_, _) => match parse_uint_spec(s, p, end) {
            None => None,
            Some((n, l)) => match skip_words_spec(s, p + l, end, n as nat) {
                None => None,
                Some(i) => match find_from(s, i, end, ByteClass::NotSpace) {
                    None => None,
                    Some(j) => Some(j - p),
                },
            },
        },
    }
}

/// How many bytes a binary property of type `t` at `p` takes: `Err` for a list counted by a
/// float type, `Ok(None)` where the bytes run out.
pub open spec fn skip_binary_spec(t: Type, s: Seq<u8>, p: int, end: int, big_endian: bool) -> Result<Option<int>, ()> {
    match t {
        Type::Single(r) => if end - p >= raw_len(r) {
            Ok(Some(raw_len(r) as int))
        } else {
            Ok(None)
        },
        Type::List(t1, t2) => match binary_uint_spec(t1, s, p, end, big_endian) {
            Err(_) => Err(()),
            Ok(None) => Ok(None),
            Ok(Some(n)) => {
                let total = raw_len(t1) + n * raw_len(t2);
                if end - p >= total {
                    Ok(Some(total as int))
                } else {
                    Ok(None)
                }
            },
        },
    }
}

impl RawType {
    /// Size in bytes of a scalar of this type.
    pub fn len(&self) -> (r: u8)
        ensures
            r == raw_len(*self),
    {
        match self {
            RawType::Char | RawType::UChar => 1,
            RawType::Short | RawType::UShort => 2,
            RawType::Int | RawType::UInt | RawType::Float => 4,
            RawType::Double => 8,
        }
    }

    /// Reads a scalar type name at `p`.
    pub fn parse(data: &[u8], p: usize, end: usize) -> (r: Option<(RawType, usize)>)
        requires
            end <= data.len(),
        ensures
            r matches Some((t, l)) ==> raw_type_spec(data@, p as int, end as int) == Some((t, l as int)),
            r is None ==> raw_type_spec(data@, p as int, end as int) is None,
    {
        if p > end || end - p < 4 {
            return None;
        }
        let q = p + 4;
        if matches_at(data, p, end, &char_bytes()) && matches_at(data, q, end, &sp_bytes()) {
            Some((RawType::Char, 5))
        } else if matches_at(data, p, end, &ucha_bytes()) && matches_at(data, q, end, &r_sp_bytes()) {
            Some((RawType::UChar, 6))
        } else if matches_at(data, p, end, &shor_bytes()) && matches_at(data, q, end, &t_sp_bytes()) {
            Some((RawType::Short, 6))
        } else if matches_at(data, p, end, &usho_bytes()) && matches_at(data, q, end, &rt_sp_bytes()) {
            Some((RawType::UShort, 7))
        } else if matches_at(data, p, end, &int_sp_bytes()) {
            Some((RawType::Int, 4))
        } else if matches_at(data, p, end, &uint_bytes()) && matches_at(data, q, end, &sp_bytes()) {
            Some((RawType::UInt, 5))
        } else if matches_at(data, p, end, &floa_bytes()) && matches_at(data, q, end, &t_sp_bytes()) {
            Some((RawType::Float, 6))
        } else if matches_at(data, p, end, &doub_bytes()) && matches_at(data, q, end, &le_bytes()) {
            Some((RawType::Double, 7))
        } else {
            None
        }
    }

    /// Reads an unsigned integer of this type at `p`.
    pub fn parse_binary_uint(&self, data: &[u8], p: usize, end: usize, big_endian: bool) -> (r: Result<Option<u32>, ()>)
        requires
            end <= data.len(),
        ensures
            r == binary_uint_spec(*self, data@, p as int, end as int, big_endian),
    {
        match self {
            RawType::Float | RawType::Double => Err(()),
            RawType::Char | RawType::UChar => {
                if p >= end {
                    Ok(None)
                } else {
                    Ok(Some(data[p] as u32))
                }
            },
            RawType::Short | RawType::UShort => {
                if p > end || end - p < 2 {
                    Ok(None)
                } else if big_endian {
                    Ok(Some(data[p] as u32 * 256 + data[p + 1] as u32))
                } else {
                    Ok(Some(data[p + 1] as u32 * 256 + data[p] as u32))
                }
            },
            _ => {
                if p > end || end - p < 4 {
                    Ok(None)
                } else {
                    Ok(Some(word32(data, p, big_endian)))
                }
            },
        }
    }

    /// Reads a coordinate of this type at `p`.
    pub fn parse_binary_float(&self, data: &[u8], p: usize, end: usize, big_endian: bool) -> (r: Option<Coord>)
        requires
            end <= data.len(),
        ensures
            r == binary_float_spec(*self, data@, p as int, end as int, big_endian),
    {
        let n = self.len() as usize;
        if p > end || end - p < n {
            return None;
        }
        match self {
            RawType::Char | RawType::UChar => Some(Coord::Unsigned(data[p] as u32)),
            RawType::Short | RawType::UShort => {
                if big_endian {
                    Some(Coord::Unsigned(data[p] as u32 * 256 + data[p + 1] as u32))
                } else {
                    Some(Coord::Unsigned(data[p + 1] as u32 * 256 + data[p] as u32))
                }
            },
            RawType::Int | RawType::UInt => Some(Coord::Unsigned(word32(data, p, big_endian))),
            RawType::Float => Some(Coord::F32Bits(word32(data, p, big_endian))),
            RawType::Double => Some(Coord::F64Bits(word64(data, p, big_endian))),
        }
    }
}

fn word32(data: &[u8], p: usize, big_endian: bool) -> (r: u32)
    requires
        p + 4 <= data.len(),
    ensures
        r == u32_of(data@[p as int], data@[p + 1], data@[p + 2], data@[p + 3], big_endian),
{
    if big_endian {
        data[p] as u32 * 16777216 + data[p + 1] as u32 * 65536 + data[p + 2] as u32 * 256 + data[p + 3] as u32
    } else {
        data[p + 3] as u32 * 16777216 + data[p + 2] as u32 * 65536 + data[p + 1] as u32 * 256 + data[p] as u32
    }
}

fn word64(data: &[u8], p: usize, big_endian: bool) -> (r: u64)
    requires
        p + 8 <= data.len(),
    ensures
        r == u64_of(data@.subrange(p as int, p + 8), big_endian),
{
    let ghost b = data@.subrange(p as int, p + 8);
    assert(b[0] == data@[p as int] && b[1] == data@[p + 1] && b[2] == data@[p + 2] && b[3] == data@[p + 3]);
    assert(b[4] == data@[p + 4] && b[5] == data@[p + 5] && b[6] == data@[p + 6] && b[7] == data@[p + 7]);
    if big_endian {
        data[p] as u64 * 0x100000000000000 + data[p + 1] as u64 * 0x1000000000000 + data[p + 2] as u64
            * 0x10000000000 + data[p + 3] as u64 * 0x100000000 + data[p + 4] as u64 * 0x1000000
            + data[p + 5] as u64 * 0x10000 + data[p + 6] as u64 * 0x100 + data[p + 7] as u64
    } else {
        data[p + 7] as u64 * 0x100000000000000 + data[p + 6] as u64 * 0x1000000000000 + data[p + 5] as u64
            * 0x10000000000 + data[p + 4] as u64 * 0x100000000 + data[p + 3] as u64 * 0x1000000
            + data[p + 2] as u64 * 0x10000 + data[p + 1] as u64 * 0x100 + data[p] as u64
    }
}

impl Type {
    /// Reads a property type at `p`.
    pub fn parse(data: &[u8], p: usize, end: usize) -> (r: Option<(Type, usize)>)
        requires
            end <= data.len(),
        ensures
            r matches Some((t, l)) ==> type_spec(data@, p as int, end as int) == Some((t, l as int)),
            r is None ==> type_spec(data@, p as int, end as int) is None,
    {
        if p > end || end - p < 4 {
            return None;
        }
        let r = p + 4;
        if matches_at(data, p, end, &list_bytes()) && matches_at(data, r, end, &sp_bytes()) {
            let q1 = find_class(data, r + 1, end, ByteClass::NotSpace)?;
            let (t1, l1) = RawType::parse(data, q1, end)?;
            if l1 > end - q1 {
                return None;
            }
            let q2 = find_class(data, q1 + l1, end, ByteClass::NotSpace)?;
            let (t2, l2) = RawType::parse(data, q2, end)?;
            if l2 > end - q2 {
                return None;
            }
            Some((Type::List(t1, t2), q2 + l2 - p))
        } else if matches_at(data, p, end, &doub_bytes()) {
            if matches_at(data, r, end, &le_sp_bytes()) {
                Some((Type::Single(RawType::Double), 7))
            } else {
                None
            }
        } else {
            match RawType::parse(data, p, end) {
                Some((t, l)) => Some((Type::Single(t), l)),
                None => None,
            }
        }
    }

    /// How far a text property of this type at `p` reaches.
    pub fn skip_ascii(&self, data: &[u8], p: usize, end: usize) -> (r: Option<usize>)
        requires
            end <= data.len(),
        ensures
            r matches Some(l) ==> skip_ascii_spec(*self, data@, p as int, end as int) == Some(l as int) && p + l <= end,
            r is None ==> skip_ascii_spec(*self, data@, p as int, end as int) is None,
    {
        match self {
            Type::Single(_) => {
                let q = find_class(data, p, end, ByteClass::Space)?;
                let j = find_class(data, q, end, ByteClass::NotSpace)?;
                Some(j - p)
            },
            Type::List(_, _) => {
                let (n, l) = parse_int(data, p, end)?;
                let ghost goal = skip_words_spec(data@, p + l, end as int, n as nat);
                let mut i = p + l;
                let mut k = n;
                while k > 0
                    invariant
                        end <= data.len(),
                        p <= i <= end,
                        goal == skip_words_spec(data@, i as int, end as int, k as nat),
                        goal == skip_words_spec(data@, p + l, end as int, n as nat),
                        parse_uint_spec(data@, p as int, end as int) == Some((n, l as int)),
                        *self is List,
                    decreases k,
                {
                    let a = find_class(data, i, end, ByteClass::NotSpace)?;
                    let b = find_class(data, a, end, ByteClass::Space)?;
                    i = b;
                    k = k - 1;
                }
                let j = find_class(data, i, end, ByteClass::NotSpace)?;
                Some(j - p)
            },
        }
    }

    /// How many bytes a binary property of this type at `p` takes.
    pub fn skip_binary(&self, data: &[u8], p: usize, end: usize, big_endian: bool) -> (r: Result<Option<usize>, ()>)
        requires
            end <= data.len(),
        ensures
            r matches Ok(Some(l)) ==> skip_binary_spec(*self, data@, p as int, end as int, big_endian) == Ok::<Option<int>, ()>(Some(l as int)) && p + l <= end,
            r matches Ok(None) ==> skip_binary_spec(*self, data@, p as int, end as int, big_endian) == Ok::<Option<int>, ()>(None),
            r is Err ==> skip_binary_spec(*self, data@, p as int, end as int, big_endian) is Err,
    {
        match self {
            Type::Single(t) => {
                let n = t.len() as usize;
                if p <= end && end - p >= n {
                    Ok(Some(n))
                } else {
                    Ok(None)
                }
            },
            Type::List(t1, t2) => {
                match t1.parse_binary_uint(data, p, end, big_endian)? {
                    None => Ok(None),
                    Some(n) => {
                        let a = t1.len() as u64;
                        let b = t2.len() as u64;
                        assert(n as u64 * b <= 0xffff_ffff * 8) by (nonlinear_arith)
                            requires
                                b <= 8;
                        let total: u64 = a + n as u64 * b;
                        if p <= end && (end - p) as u64 >= total {
                            Ok(Some(total as usize))
                        } else {
                            Ok(None)
                        }
                    },
                }
            },
        }
    }
}

} // verus!
