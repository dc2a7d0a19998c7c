use vstd::prelude::*;

verus! {

/// Classes of bytes that the scanners of this crate look for.
#[derive(Clone, Copy, PartialEq, Eq, Structural)]
pub enum ByteClass {
    /// `\n`
    Newline,
    /// `' '`
    Space,
    /// anything but `' '`
    NotSpace,
    /// anything but `\n`
    NotNewline,
    /// anything but `' '` and `\r`
    NotSpaceNorCr,
    /// a blank or a line end: any byte below `'!'` (space, tab, `\n`, `\r` and the other
    /// control bytes)
    BelowBang,
    /// `'0'..='9'`
    Digit,
    /// anything but `'0'..='9'`
    NotDigit,
}

pub open spec fn in_class(k: ByteClass, b: u8) -> bool {
    match k {
        ByteClass::Newline => b == 10,
        ByteClass::Space => b == 32,
        ByteClass::NotSpace => b != 32,
        ByteClass::NotNewline => b != 10,
        ByteClass::NotSpaceNorCr => b != 32 && b != 13,
        ByteClass::BelowBang => b < 33,
        ByteClass::Digit => 48 <= b <= 57,
        ByteClass::NotDigit => !(48 <= b <= 57),
    }
}

pub fn is_in_class(k: ByteClass, b: u8) -> (r: bool)
    ensures
        r == in_class(k, b),
{
    match k {
        ByteClass::Newline => b == 10,
        ByteClass::Space => b == 32,
        ByteClass::NotSpace => b != 32,
        ByteClass::NotNewline => b != 10,
        ByteClass::NotSpaceNorCr => b != 32 && b != 13,
        ByteClass::BelowBang => b < 33,
        ByteClass::Digit => 48 <= b && b <= 57,
        ByteClass::NotDigit => !(48 <= b && b <= 57),
    }
}

/// The first index in `[from, end)` whose byte is of class `k`.
pub open spec fn find_from(s: Seq<u8>, from: int, end: int, k: ByteClass) -> Option<int>
    decreases end - from,
{
    if from >= end {
        None
    } else if in_class(k, s[from]) {
        Some(from)
    } else {
        find_from(s, from + 1, end, k)
    }
}

/// What `find_from` returns lies in the range searched.
pub proof fn lemma_find_from_range(s: Seq<u8>, from: int, end: int, k: ByteClass)
    ensures
        find_from(s, from, end, k) matches Some(r) ==> from <= r < end,
    decreases end - from,
{
    if from < end && !in_class(k, s[from]) {
        lemma_find_from_range(s, from + 1, end, k);
    }
}

/// What `find_from` returns is the first byte of the class in the range.
pub proof fn lemma_find_from(s: Seq<u8>, from: int, end: int, k: ByteClass)
    requires
        0 <= from,
        end <= s.len(),
    ensures
        match find_from(s, from, end, k) {
            Some(r) => from <= r < end && in_class(k, s[r]) && forall|j: int|
                from <= j < r ==> !in_class(k, #[trigger] s[j]),
            None => forall|j: int| from <= j < end ==> !in_class(k, #[trigger] s[j]),
        },
    decreases end - from,
{
    if from < end && !in_class(k, s[from]) {
        lemma_find_from(s, from + 1, end, k);
    }
}

/// Scans `data[from..end]` for the first byte of class `k`.
pub fn find_class(data: &[u8], from: usize, end: usize, k: ByteClass) -> (r: Option<usize>)
    requires
        end <= data.len(),
    ensures
        r matches Some(i) ==> find_from(data@, from as int, end as int, k) == Some(i as int) && from <= i < end,
        r is None ==> find_from(data@, from as int, end as int, k) is None,
{
    let mut i = from;
    while i < end
        invariant
            from <= i,
            end <= data.len(),
            find_from(data@, from as int, end as int, k) == find_from(data@, i as int, end as int, k),
        decreases end - i,
    {
        if is_in_class(k, data[i]) {
            return Some(i);
        }
        i = i + 1;
    }
    None
}

} // verus!

verus! {

/// Position of the first `\n` in `data[from..end]`.
pub fn find_newline(data: &[u8], from: usize, end: usize) -> (r: Option<usize>)
    requires
        end <= data.len(),
    ensures
        r matches Some(i) ==> find_from(data@, from as int, end as int, ByteClass::Newline) == Some(i as int) && from <= i < end,
        r is None ==> find_from(data@, from as int, end as int, ByteClass::Newline) is None,
{
    find_class(data, from, end, ByteClass::Newline)
}

/// Position of the first `' '` in `data[from..end]`.
pub fn find_blank_space(data: &[u8], from: usize, end: usize) -> (r: Option<usize>)
    requires
        end <= data.len(),
    ensures
        r matches Some(i) ==> find_from(data@, from as int, end as int, ByteClass::Space) == Some(i as int) && from <= i < end,
        r is None ==> find_from(data@, from as int, end as int, ByteClass::Space) is None,
{
    find_class(data, from, end, ByteClass::Space)
}

pub open spec fn opt_usize(o: Option<int>) -> Option<usize> {
    match o {
        Some(i) => Some(i as usize),
        None => None,
    }
}

/// The end of a word: the first blank or line end (any byte below `'!'`) from `from`.
pub open spec fn blank_or_newline_spec(s: Seq<u8>, from: int, end: int) -> Option<int> {
    find_from(s, from, end, ByteClass::BelowBang)
}

/// Position in `data[from..end]` of the first byte that ends a word (see `blank_or_newline_spec`).
pub fn find_blank_or_newline(data: &[u8], from: usize, end: usize) -> (r: Option<usize>)
    requires
        from <= end <= data.len(),
    ensures
        r matches Some(i) ==> blank_or_newline_spec(data@, from as int, end as int) == Some(i as int) && from <= i < end,
        r is None ==> blank_or_newline_spec(data@, from as int, end as int) is None,
{
    find_class(data, from, end, ByteClass::BelowBang)
}

/// `while data[i] == b' ' { i += 1 }`: the first byte that is no space, or nothing if the
/// bytes run out first.
pub open spec fn skip_spaces_spec(s: Seq<u8>, p: int, end: int) -> Option<int> {
    find_from(s, p, end, ByteClass::NotSpace)
}

/// Where a number's digits stop.
pub open spec fn digits_end(s: Seq<u8>, i: int, end: int) -> int {
    match find_from(s, i, end, ByteClass::NotDigit) {
        Some(e) => e,
        None => end,
    }
}

/// The decimal value of `s[i..j]`, accumulated from the left in 32 bits that wrap.
pub open spec fn dec_acc(s: Seq<u8>, i: int, j: int) -> u32
    decreases j - i,
{
    if j <= i {
        0
    } else {
        vstd::wrapping::u32_specs::wrapping_add(
            vstd::wrapping::u32_specs::wrapping_mul(dec_acc(s, i, j - 1), 10),
            (s[j - 1] - 48) as u32,
        )
    }
}

/// Reads the digits of `data[i..end]` and returns where they stop and their value.
pub fn read_digits(data: &[u8], i: usize, end: usize) -> (r: (usize, u32))
    requires
        i <= end <= data.len(),
    ensures
        r.0 == digits_end(data@, i as int, end as int),
        i <= r.0 <= end,
        r.1 == dec_acc(data@, i as int, r.0 as int),
{
    let mut j = i;
    let mut acc: u32 = 0;
    while j < end && 48 <= data[j] && data[j] <= 57
        invariant
            i <= j <= end,
            end <= data.len(),
            acc == dec_acc(data@, i as int, j as int),
            find_from(data@, i as int, end as int, ByteClass::NotDigit) == find_from(
                data@,
                j as int,
                end as int,
                ByteClass::NotDigit,
            ),
        decreases end - j,
    {
        acc = acc.wrapping_mul(10).wrapping_add((data[j] - 48) as u32);
        j = j + 1;
    }
    (j, acc)
}

/// An unsigned number at `p`, a leading `+` allowed: its value and how many bytes it takes.
/// Any byte may start it; it is then zero bytes of digits long.
pub open spec fn parse_uint_spec(s: Seq<u8>, p: int, end: int) -> Option<(u32, int)> {
    if p >= end {
        None
    } else {
        let start = if s[p] == 43 {
            p + 1
        } else {
            p
        };
        let e = digits_end(s, start, end);
        Some((dec_acc(s, start, e), e - p))
    }
}

/// Reads an unsigned number from `data[p..end]`: an optional `+`, then digits (possibly
/// none). Its value (32 bits that wrap) and how many bytes it takes; `None` where no byte is
/// left.
pub fn parse_int(data: &[u8], p: usize, end: usize) -> (r: Option<(u32, usize)>)
    requires
        end <= data.len(),
    ensures
        r matches Some((v, l)) ==> parse_uint_spec(data@, p as int, end as int) == Some((v, l as int))
            && p + l <= end,
        r is None ==> parse_uint_spec(data@, p as int, end as int) is None,
{
    if p >= end {
        return None;
    }
    let start = if data[p] == 43 {
        p + 1
    } else {
        p
    };
    let (e, v) = read_digits(data, start, end);
    Some((v, e - p))
}

/// A vertex coordinate as the file gives it; turning it into a float is left to the caller.
#[derive(Clone, Copy, PartialEq, Eq, Structural)]
pub enum Coord {
    /// The text of a number, `data[start..end]` of the parsed input.
    Text(usize, usize),
    /// An unsigned integer, to be taken as a float.
    Unsigned(u32),
    /// The bits of a 32-bit float.
    F32Bits(u32),
    /// The bits of a 64-bit float, to be narrowed to 32 bits.
    F64Bits(u64),
}

pub open spec fn text(a: int, b: int) -> Coord {
    Coord::Text(a as usize, b as usize)
}

/// The three coordinates of a text vertex at `p`: where their texts lie, and where the scan
/// stops (at the line's `\n`).
pub open spec fn float3_spec(s: Seq<u8>, p: int, end: int) -> Option<(int, [Coord; 3])> {
    match skip_spaces_spec(s, p, end) {
        None => None,
        Some(a0) => match find_from(s, a0 + 1, end, ByteClass::Space) {
            None => None,
            Some(q1) => match skip_spaces_spec(s, q1 + 1, end) {
                None => None,
                Some(a1) => match find_from(s, a1 + 1, end, ByteClass::Space) {
                    None => None,
                    Some(q2) => match skip_spaces_spec(s, q2 + 1, end) {
                        None => None,
                        Some(a2) => match blank_or_newline_spec(s, a2 + 1, end) {
                            None => None,
                            Some(q3) => {
                                let fin = if s[q3] == 13 {
                                    Some(q3 + 1)
                                } else if s[q3] == 10 {
                                    Some(q3)
                                } else {
                                    find_from(s, q3 + 1, end, ByteClass::Newline)
                                };
                                match fin {
                                    None => None,
                                    Some(f) => Some(
                                        (f - p, [text(a0, q1), text(a1, q2), text(a2, q3)]),
                                    ),
                                }
                            },
                        },
                    },
                },
            },
        },
    }
}

/// `parse_float3` on `data[p..end]`: finds the three coordinate texts of a vertex line and
/// returns how far the line's `\n` is from `p`. `None` where the line is cut short.
pub fn parse_float3(data: &[u8], p: usize, end: usize) -> (r: Option<(usize, [Coord; 3])>)
    requires
        p <= end <= data.len(),
    ensures
        r matches Some((o, c)) ==> float3_spec(data@, p as int, end as int) == Some((o as int, c))
            && p + o <= end,
        r is None ==> float3_spec(data@, p as int, end as int) is None,
{
    proof {
        lemma_find_from(data@, p as int, end as int, ByteClass::NotSpace);
    }
    let a0 = find_class(data, p, end, ByteClass::NotSpace)?;
    proof {
        lemma_find_from(data@, a0 + 1, end as int, ByteClass::Space);
    }
    let q1 = find_class(data, a0 + 1, end, ByteClass::Space)?;
    proof {
        lemma_find_from(data@, q1 + 1, end as int, ByteClass::NotSpace);
    }
    let a1 = find_class(data, q1 + 1, end, ByteClass::NotSpace)?;
    proof {
        lemma_find_from(data@, a1 + 1, end as int, ByteClass::Space);
    }
    let q2 = find_class(data, a1 + 1, end, ByteClass::Space)?;
    proof {
        lemma_find_from(data@, q2 + 1, end as int, ByteClass::NotSpace);
    }
    let a2 = find_class(data, q2 + 1, end, ByteClass::NotSpace)?;
    let q3 = find_blank_or_newline(data, a2 + 1, end)?;
    proof {
        lemma_find_from(data@, a2 + 1, end as int, ByteClass::BelowBang);
    }
    let f = if data[q3] == 13 {
        q3 + 1
    } else if data[q3] == 10 {
        q3
    } else {
        proof {
            lemma_find_from(data@, q3 + 1, end as int, ByteClass::Newline);
        }
        find_newline(data, q3 + 1, end)?
    };
    Some((f - p, [Coord::Text(a0, q1), Coord::Text(a1, q2), Coord::Text(a2, q3)]))
}

/// One float of a PLY text element at `p`: its text and how far the next word is from `p`.
pub open spec fn float_spec(s: Seq<u8>, p: int, end: int) -> Option<(Coord, int)> {
    match skip_spaces_spec(s, p, end) {
        None => None,
        Some(a) => match blank_or_newline_spec(s, a + 1, end) {
            None => None,
            Some(q) => {
                let i = q + 1;
                if i < end && s[i] == 32 {
                    match skip_spaces_spec(s, i, end) {
                        None => None,
                        Some(j) => Some((text(a, q), j - p)),
                    }
                } else {
                    Some((text(a, q), i - p))
                }
            },
        },
    }
}

/// Reads one float of a PLY text element at `data[p..end]`: leading spaces passed over, the
/// word up to the next blank or line end (as `float_spec` says). The span of its text, and
/// how far the next word is from `p`.
pub fn parse_float(data: &[u8], p: usize, end: usize) -> (r: Option<(Coord, usize)>)
    requires
        p <= end <= data.len(),
    ensures
        r matches Some((c, o)) ==> float_spec(data@, p as int, end as int) == Some((c, o as int))
            && p + o <= end,
        r is None ==> float_spec(data@, p as int, end as int) is None,
{
    proof {
        lemma_find_from(data@, p as int, end as int, ByteClass::NotSpace);
    }
    let a = find_class(data, p, end, ByteClass::NotSpace)?;
    let q = find_blank_or_newline(data, a + 1, end)?;
    proof {
        lemma_find_from(data@, a + 1, end as int, ByteClass::BelowBang);
    }
    let i = q + 1;
    if i < end && data[i] == 32 {
        proof {
            lemma_find_from(data@, i as int, end as int, ByteClass::NotSpace);
        }
        let j = find_class(data, i, end, ByteClass::NotSpace)?;
        Some((Coord::Text(a, q), j - p))
    } else {
        Some((Coord::Text(a, q), i - p))
    }
}

/// The three coordinates of a vertex line are the first, second and third words from `p`, in
/// this order and each a different span: the returned positions `(a0, q1, a1, q2, a2, q3)`
/// give coordinate `i` as the text between the `2i`-th and the `(2i+1)`-th. The first word
/// starts at the first byte from `p` that is no space; each word runs up to the next space
/// (the third, from its second byte, up to the next blank or line end), and the next word
/// starts at the first byte that is no space after it.
pub proof fn lemma_float3_words(s: Seq<u8>, p: int, end: int) -> (w: (int, int, int, int, int, int))
    requires
        0 <= p,
        end <= s.len(),
    ensures
        float3_spec(s, p, end) matches Some((_, c)) ==> {
            &&& c[0] == text(w.0, w.1)
            &&& c[1] == text(w.2, w.3)
            &&& c[2] == text(w.4, w.5)
            &&& p <= w.0 < w.1 < w.2 < w.3 < w.4 < w.5 < end
            &&& forall|j: int| p <= j < w.0 ==> s[j] == 32
            &&& forall|j: int| w.0 <= j < w.1 ==> s[j] != 32
            &&& s[w.1] == 32
            &&& forall|j: int| w.1 <= j < w.2 ==> s[j] == 32
            &&& forall|j: int| w.2 <= j < w.3 ==> s[j] != 32
            &&& s[w.3] == 32
            &&& forall|j: int| w.3 <= j < w.4 ==> s[j] == 32
            &&& s[w.4] != 32
            &&& forall|j: int| w.4 < j < w.5 ==> s[j] >= 33
            &&& s[w.5] < 33
        },
{
    lemma_find_from(s, p, end, ByteClass::NotSpace);
    match skip_spaces_spec(s, p, end) {
        None => (0, 0, 0, 0, 0, 0),
        Some(a0) => {
            lemma_find_from(s, a0 + 1, end, ByteClass::Space);
            match find_from(s, a0 + 1, end, ByteClass::Space) {
                None => (0, 0, 0, 0, 0, 0),
                Some(q1) => {
                    lemma_find_from(s, q1 + 1, end, ByteClass::NotSpace);
                    match skip_spaces_spec(s, q1 + 1, end) {
                        None => (0, 0, 0, 0, 0, 0),
                        Some(a1) => {
                            lemma_find_from(s, a1 + 1, end, ByteClass::Space);
                            match find_from(s, a1 + 1, end, ByteClass::Space) {
                                None => (0, 0, 0, 0, 0, 0),
                                Some(q2) => {
                                    lemma_find_from(s, q2 + 1, end, ByteClass::NotSpace);
                                    match skip_spaces_spec(s, q2 + 1, end) {
                                        None => (0, 0, 0, 0, 0, 0),
                                        Some(a2) => {
                                            lemma_find_from(s, a2 + 1, end, ByteClass::BelowBang);
                                            match blank_or_newline_spec(s, a2 + 1, end) {
                                                None => (0, 0, 0, 0, 0, 0),
                                                Some(q3) => {
                                                    assert(s[a2] != 32);
                                                    (a0, q1, a1, q2, a2, q3)
                                                },
                                            }
                                        },
                                    }
                                },
                            }
                        },
                    }
                },
            }
        },
    }
}

} // verus!
