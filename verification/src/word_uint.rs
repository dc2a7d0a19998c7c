use vstd::prelude::*;
use crate::scan::{ByteClass, digits_end, find_class, find_from, find_newline, lemma_find_from, lemma_find_from_range};
use crate::surface::{FaceMode, FaceState, mode_step, step_mode};

verus! {

/// The value a leading byte of a count gives: `+` counts as zero, any other byte gives its
/// low four bits.
pub open spec fn lead_value(b: u8) -> u8 {
    if b == 43 {
        0
    } else {
        b % 16
    }
}

/// `v`, then the digits `s[i..j]`, accumulated from the left in 8 bits that wrap.
pub open spec fn dec_acc_u8(v: u8, s: Seq<u8>, i: int, j: int) -> u8
    decreases j - i,
{
    if j <= i {
        v
    } else {
        vstd::wrapping::u8_specs::wrapping_add(
            vstd::wrapping::u8_specs::wrapping_mul(dec_acc_u8(v, s, i, j - 1), 10),
            (s[j - 1] - 48) as u8,
        )
    }
}

/// `v`, then the digits `s[i..j]`, accumulated from the left in 32 bits that wrap.
pub open spec fn dec_acc_from(v: u32, s: Seq<u8>, i: int, j: int) -> u32
    decreases j - i,
{
    if j <= i {
        v
    } else {
        vstd::wrapping::u32_specs::wrapping_add(
            vstd::wrapping::u32_specs::wrapping_mul(dec_acc_from(v, s, i, j - 1), 10),
            (s[j - 1] - 48) as u32,
        )
    }
}

/// A count of face vertices at `p`: its first byte (see `lead_value`), then the digits that
/// follow. The value, in 8 bits that wrap, and the position after the digits.
pub open spec fn parse_u8_spec(s: Seq<u8>, p: int, end: int) -> Option<(u8, int)> {
    if p >= end {
        None
    } else {
        let e = digits_end(s, p + 1, end);
        Some((dec_acc_u8(lead_value(s[p]), s, p + 1, e), e))
    }
}

/// Reads the count of a face list from `data[p..end]`.
pub fn parse_u8(data: &[u8], p: usize, end: usize) -> (r: Option<(u8, usize)>)
    requires
        end <= data.len(),
    ensures
        match parse_u8_spec(data@, p as int, end as int) {
            None => r is None,
            Some((v, e)) => r == Some((v, e as usize)) && p < e <= end,
        },
{
    if p >= end {
        return None;
    }
    let first = data[p];
    let mut acc: u8 = if first == 43 {
        0
    } else {
        first % 16
    };
    let mut j = p + 1;
    proof {
        lemma_find_from(data@, j as int, end as int, ByteClass::NotDigit);
    }
    while j < end && 48 <= data[j] && data[j] <= 57
        invariant
            p < j <= end,
            end <= data.len(),
            acc == dec_acc_u8(lead_value(first), data@, p + 1, j as int),
            first == data@[p as int],
            find_from(data@, p + 1, end as int, ByteClass::NotDigit) == find_from(
                data@,
                j as int,
                end as int,
                ByteClass::NotDigit,
            ),
        decreases end - j,
    {
        acc = acc.wrapping_mul(10).wrapping_add(data[j] - 48);
        j = j + 1;
    }
    Some((acc, j))
}

} // verus!

verus! {

/// The carry into byte `j` of the eight-byte little-endian word at `base` when `0x50` is
/// added to each of its bytes in one 64-bit addition; the carry out of the top byte is lost.
pub open spec fn word_carry(s: Seq<u8>, base: int, j: int) -> bool
    decreases j,
{
    if j <= 0 {
        false
    } else {
        s[base + j - 1] + 80 + (if word_carry(s, base, j - 1) {
            1int
        } else {
            0int
        }) >= 256
    }
}

/// Whether byte `j` of the word at `base` counts as a digit for the word-at-a-time readers:
/// the top bit of the byte, or of the byte of the sum with `0x50`, is set. Every byte from
/// `'0'` up counts (letters too), and a byte before it of `0xB0` or more can make a `'/'`
/// count through the carry.
pub open spec fn word_digit(s: Seq<u8>, base: int, j: int) -> bool {
    let b = s[base + j];
    b >= 128 || (b + 80 + (if word_carry(s, base, j) {
        1int
    } else {
        0int
    })) % 256 >= 128
}

/// Byte `j` (one of the first seven) of the word at `base` ends a number: it counts as a
/// digit and the byte after it does not.
pub open spec fn word_end(s: Seq<u8>, base: int, j: int) -> bool {
    0 <= j < 7 && word_digit(s, base, j) && !word_digit(s, base, j + 1)
}

/// The first byte in `k..7` of the word at `base` that ends a number.
pub open spec fn first_end(s: Seq<u8>, base: int, k: int) -> Option<int>
    decreases 7 - k,
{
    if k >= 7 {
        None
    } else if word_end(s, base, k) {
        Some(k)
    } else {
        first_end(s, base, k + 1)
    }
}

/// Which bytes of the word at `base` count as digits.
pub fn word_digits(data: &[u8], base: usize) -> (r: Vec<bool>)
    requires
        base + 8 <= data.len(),
    ensures
        r@.len() == 8,
        forall|j: int| 0 <= j < 8 ==> #[trigger] r@[j] == word_digit(data@, base as int, j),
{
    let mut r: Vec<bool> = Vec::new();
    let mut carry = false;
    let mut j: usize = 0;
    while j < 8
        invariant
            base + 8 <= data.len(),
            j <= 8,
            r@.len() == j,
            carry == word_carry(data@, base as int, j as int),
            forall|k: int| 0 <= k < j ==> #[trigger] r@[k] == word_digit(data@, base as int, k),
        decreases 8 - j,
    {
        let b = data[base + j];
        let sum: u16 = b as u16 + 80 + if carry {
            1
        } else {
            0
        };
        r.push(b >= 128 || sum % 256 >= 128);
        carry = sum >= 256;
        j = j + 1;
    }
    r
}

/// The first byte in `k..7` that ends a number, given the digit flags of the word.
fn first_end_of(flags: &Vec<bool>, Ghost(s): Ghost<Seq<u8>>, Ghost(base): Ghost<int>, k: usize) -> (r: Option<usize>)
    requires
        flags@.len() == 8,
        forall|j: int| 0 <= j < 8 ==> #[trigger] flags@[j] == word_digit(s, base, j),
        k <= 7,
    ensures
        match first_end(s, base, k as int) {
            None => r is None,
            Some(e) => r == Some(e as usize) && k <= e < 7,
        },
{
    let mut j = k;
    while j < 7
        invariant
            k <= j <= 7,
            flags@.len() == 8,
            forall|i: int| 0 <= i < 8 ==> #[trigger] flags@[i] == word_digit(s, base, i),
            first_end(s, base, k as int) == first_end(s, base, j as int),
        decreases 7 - j,
    {
        if flags[j] && !flags[j + 1] {
            return Some(j);
        }
        j = j + 1;
    }
    None
}

/// The bytes `s[i..j]` taken by their low four bits as decimal digits, accumulated from the
/// left in 32 bits that wrap.
pub open spec fn nib_acc(s: Seq<u8>, i: int, j: int) -> u32
    decreases j - i,
{
    if j <= i {
        0
    } else {
        vstd::wrapping::u32_specs::wrapping_add(
            vstd::wrapping::u32_specs::wrapping_mul(nib_acc(s, i, j - 1), 10),
            (s[j - 1] % 16) as u32,
        )
    }
}

/// Among the `n` whole groups of eight bytes from `p`, the first group from `c` on in which a
/// number ends, and the byte of that group where it ends.
pub open spec fn first_end_group(s: Seq<u8>, p: int, c: int, n: int) -> Option<(int, int)>
    decreases n - c,
{
    if c >= n {
        None
    } else {
        match first_end(s, p + 8 * c, 0) {
            Some(e) => Some((c, e)),
            None => first_end_group(s, p, c + 1, n),
        }
    }
}

/// An unsigned number read from `s[p..end]` a word of eight bytes at a time. Where a number
/// ends within one of the whole groups of eight bytes, the value is that of all the bytes of
/// that group up to the end, each taken by its low four bits, and the length is counted from
/// the start of that group. Where none ends there, the bytes left over are read: a first byte
/// (see `lead_value`), then digits; the length is then counted from `p`.
pub open spec fn word_uint_spec(s: Seq<u8>, p: int, end: int) -> Option<(u32, int)> {
    let n = (end - p) / 8;
    match first_end_group(s, p, 0, n) {
        Some((c, e)) => Some((nib_acc(s, p + 8 * c, p + 8 * c + e + 1), e + 1)),
        None => {
            let r = p + 8 * n;
            if r >= end {
                None
            } else {
                let de = digits_end(s, r + 1, end);
                Some((dec_acc_from(lead_value(s[r]) as u32, s, r + 1, de), de - p))
            }
        },
    }
}

/// The low four bits of `s[i..j]` as decimal digits, accumulated from the left.
fn nib_value(data: &[u8], i: usize, j: usize) -> (r: u32)
    requires
        i <= j <= data.len(),
    ensures
        r == nib_acc(data@, i as int, j as int),
{
    let mut acc: u32 = 0;
    let mut k = i;
    while k < j
        invariant
            i <= k <= j <= data.len(),
            acc == nib_acc(data@, i as int, k as int),
        decreases j - k,
    {
        acc = acc.wrapping_mul(10).wrapping_add((data[k] % 16) as u32);
        k = k + 1;
    }
    acc
}

/// Reads the digits of `data[i..end]` onto `v`: where they stop, and the value.
fn digits_onto(data: &[u8], i: usize, end: usize, v: u32) -> (r: (usize, u32))
    requires
        i <= end <= data.len(),
    ensures
        r.0 == digits_end(data@, i as int, end as int),
        i <= r.0 <= end,
        r.1 == dec_acc_from(v, data@, i as int, r.0 as int),
{
    let mut j = i;
    let mut acc = v;
    proof {
        lemma_find_from(data@, i as int, end as int, ByteClass::NotDigit);
    }
    while j < end && 48 <= data[j] && data[j] <= 57
        invariant
            i <= j <= end,
            end <= data.len(),
            acc == dec_acc_from(v, data@, i as int, j as int),
            find_from(data@, i as int, end as int, ByteClass::NotDigit) == find_from(
                data@,
                j as int,
                end as int,
                ByteClass::NotDigit,
            ),
        decreases end - j,
    {
        acc = acc.wrapping_mul(10).wrapping_add((data[j] - 48) as u32);
        j = j + 1;
    }
    (j, acc)
}

/// Reads an unsigned number from `data[p..end]`, as `word_uint_spec` says.
pub fn parse_uint(data: &[u8], p: usize, end: usize) -> (r: Option<(u32, usize)>)
    requires
        p <= end <= data.len(),
    ensures
        match word_uint_spec(data@, p as int, end as int) {
            None => r is None,
            Some((v, l)) => r == Some((v, l as usize)) && 0 < l <= end - p,
        },
{
    let n = (end - p) / 8;
    let mut c: usize = 0;
    while c < n
        invariant
            n == (end - p) / 8,
            p <= end <= data.len(),
            c <= n,
            first_end_group(data@, p as int, 0, n as int) == first_end_group(data@, p as int, c as int, n as int),
        decreases n - c,
    {
        assert(p + 8 * c + 8 <= end) by (nonlinear_arith)
            requires
                c < n,
                n == (end - p) / 8,
                p <= end,
        ;
        let base = p + 8 * c;
        let flags = word_digits(data, base);
        match first_end_of(&flags, Ghost(data@), Ghost(base as int), 0) {
            Some(e) => {
                let v = nib_value(data, base, base + e + 1);
                return Some((v, e + 1));
            },
            None => {},
        }
        c = c + 1;
    }
    assert(p + 8 * n <= end) by (nonlinear_arith)
        requires
            n == (end - p) / 8,
            p <= end,
    ;
    let r = p + 8 * n;
    if r >= end {
        return None;
    }
    let first = data[r];
    let lead: u8 = if first == 43 {
        0
    } else {
        first % 16
    };
    let (de, v) = digits_onto(data, r + 1, end, lead as u32);
    Some((v, de - p))
}

} // verus!

verus! {

/// Ten to the power `k`.
pub open spec fn pow10(k: nat) -> nat
    decreases k,
{
    if k == 0 {
        1
    } else {
        10 * pow10((k - 1) as nat)
    }
}

/// Ten to the power `k`, for `k` up to nine.
fn ten_pow(k: usize) -> (r: u32)
    requires
        k <= 9,
    ensures
        r == pow10(k as nat),
        r >= 1,
{
    proof {
        reveal_with_fuel(pow10, 10);
    }
    match k {
        0 => 1,
        1 => 10,
        2 => 100,
        3 => 1000,
        4 => 10000,
        5 => 100000,
        6 => 1000000,
        7 => 10000000,
        8 => 100000000,
        _ => 1000000000,
    }
}

pub open spec fn or_zero(v: Option<u32>) -> u32 {
    match v {
        Some(x) => x,
        None => 0,
    }
}

/// The bytes `i..j` of the word at `base` that count as digits, each by its low four bits,
/// the others as zeros, accumulated from the left in 32 bits that wrap.
pub open spec fn masked_acc(s: Seq<u8>, base: int, i: int, j: int) -> u32
    decreases j - i,
{
    if j <= i {
        0
    } else {
        vstd::wrapping::u32_specs::wrapping_add(
            vstd::wrapping::u32_specs::wrapping_mul(masked_acc(s, base, i, j - 1), 10),
            if word_digit(s, base, j - 1) {
                (s[base + j - 1] % 16) as u32
            } else {
                0
            },
        )
    }
}

/// The ends of numbers from byte `j` on of the word at `base`, pushed onto `out`. `num` holds
/// the value of the digit bytes not handed out yet, `pending` a number carried over from the
/// group before. At each end the part of `num` above it is pushed, plus the pending value
/// times ten to the number of bytes up to the end (the pending value is used once), and
/// `num` keeps the part below; the count `n` drops by one (wrapping), and the reading stops
/// where it reaches zero. `Ok(k)`: stopped, `k` bytes of the group read; `Err((num, pending,
/// n))`: the state after the group's last end.
pub open spec fn ends_spec(
    s: Seq<u8>,
    base: int,
    j: int,
    num: u32,
    pending: Option<u32>,
    n: u32,
    out: Seq<u32>,
) -> (Seq<u32>, Result<int, (u32, Option<u32>, u32)>)
    decreases 7 - j,
{
    if j >= 7 {
        (out, Err((num, pending, n)))
    } else if word_end(s, base, j) {
        let d = pow10((7 - j) as nat) as u32;
        let v = vstd::wrapping::u32_specs::wrapping_add(
            num / d,
            vstd::wrapping::u32_specs::wrapping_mul(or_zero(pending), pow10((j + 1) as nat) as u32),
        );
        let n2 = vstd::wrapping::u32_specs::wrapping_sub(n, 1);
        if n2 == 0 {
            (out.push(v), Ok(j + 1))
        } else {
            ends_spec(s, base, j + 1, num % d, None, n2, out.push(v))
        }
    } else {
        ends_spec(s, base, j + 1, num, pending, n, out)
    }
}

/// The end of a word's reading: stopped where the count ran out; otherwise, where the last
/// byte counts as a digit, what is left of `num` becomes pending (on top of a pending value
/// not used, times ten to the eighth).
pub open spec fn after_ends(s: Seq<u8>, base: int, r: (Seq<u32>, Result<int, (u32, Option<u32>, u32)>)) -> (
    Seq<u32>,
    Result<int, (Option<u32>, u32)>,
) {
    match r {
        (o, Ok(k)) => (o, Ok(k)),
        (o, Err((num, pd, n2))) => (
            o,
            Err(
                (
                    if word_digit(s, base, 7) {
                        Some(
                            vstd::wrapping::u32_specs::wrapping_add(
                                num,
                                vstd::wrapping::u32_specs::wrapping_mul(or_zero(pd), 100000000),
                            ),
                        )
                    } else {
                        None
                    },
                    n2,
                ),
            ),
        ),
    }
}

/// The numbers of the word at `base` after the check of its first byte: its ends, then what
/// is left pending.
pub open spec fn group_ends_spec(s: Seq<u8>, base: int, pending: Option<u32>, n: u32, out: Seq<u32>) -> (
    Seq<u32>,
    Result<int, (Option<u32>, u32)>,
) {
    after_ends(s, base, ends_spec(s, base, 0, masked_acc(s, base, 0, 8), pending, n, out))
}

/// One word of eight bytes at `base`: a pending number whose digits stopped at the end of
/// the group before is pushed first where this word's first byte is no digit; then the
/// word's own numbers. `Ok(k)`: the count ran out with `k` bytes of the word read.
pub open spec fn group_spec(s: Seq<u8>, base: int, pending: Option<u32>, n: u32, out: Seq<u32>) -> (
    Seq<u32>,
    Result<int, (Option<u32>, u32)>,
) {
    match pending {
        Some(v) => if !word_digit(s, base, 0) {
            let n1 = vstd::wrapping::u32_specs::wrapping_sub(n, 1);
            if n1 == 0 {
                (out.push(v), Ok(0))
            } else {
                group_ends_spec(s, base, None, n1, out.push(v))
            }
        } else {
            group_ends_spec(s, base, pending, n, out)
        },
        None => group_ends_spec(s, base, pending, n, out),
    }
}

/// The whole groups of eight bytes `c..ng` from `p`. `Ok(k)`: the count ran out, `k` bytes
/// from `p` read.
pub open spec fn groups_spec(
    s: Seq<u8>,
    p: int,
    c: int,
    ng: int,
    pending: Option<u32>,
    n: u32,
    out: Seq<u32>,
) -> (Seq<u32>, Result<int, (Option<u32>, u32)>)
    decreases ng - c,
{
    if c >= ng {
        (out, Err((pending, n)))
    } else {
        match group_spec(s, p + 8 * c, pending, n, out) {
            (o, Ok(k)) => (o, Ok(8 * c + k)),
            (o, Err((pd, n2))) => groups_spec(s, p, c + 1, ng, pd, n2, o),
        }
    }
}

/// The bytes left over after the whole groups, from `i`: while the count lasts, a number
/// made of `pv` (the value pending after the groups, used for every number) and the digits
/// from `i`; then, where more are wanted, the byte after the digits is passed over and the
/// next digit sought. The position where the last number's digits stop, or `None` where the
/// bytes run out first.
pub open spec fn rest_spec(s: Seq<u8>, i: int, end: int, pv: u32, n: u32, out: Seq<u32>) -> (
    Seq<u32>,
    Option<int>,
)
    decreases end - i,
{
    if n == 0 {
        (out, Some(i))
    } else if i > end {
        (out, None)
    } else {
        let e = digits_end(s, i, end);
        let v = dec_acc_from(pv, s, i, e);
        let n2 = vstd::wrapping::u32_specs::wrapping_sub(n, 1);
        if n2 == 0 {
            (out.push(v), Some(e))
        } else if e + 1 > end {
            (out.push(v), None)
        } else {
            match find_from(s, e + 1, end, ByteClass::Digit) {
                None => (out.push(v), None),
                Some(q) => {
                    proof {
                        lemma_find_from_range(s, e + 1, end, ByteClass::Digit);
                        lemma_find_from_range(s, i, end, ByteClass::NotDigit);
                    }
                    rest_spec(s, q, end, pv, n2, out.push(v))
                },
            }
        }
    }
}

/// `n` unsigned numbers from `s[p..end]`, read a word of eight bytes at a time,
/// pushed onto `out`; then the bytes left over. The indices with the numbers read (also where
/// the reading fails), and the position after the last number, counted from `p`.
pub open spec fn uints_spec(s: Seq<u8>, p: int, end: int, n: u32, out: Seq<u32>) -> (Seq<u32>, Option<int>) {
    let ng = (end - p) / 8;
    match groups_spec(s, p, 0, ng, None, n, out) {
        (o, Ok(k)) => (o, Some(k)),
        (o, Err((pd, n2))) => match rest_spec(s, p + 8 * ng, end, or_zero(pd), n2, o) {
            (o2, Some(a)) => (o2, Some(a - p)),
            (o2, None) => (o2, None),
        },
    }
}

} // verus!

verus! {

/// The masked value of the whole word at `base`, given its digit flags.
fn masked_value(data: &[u8], base: usize, flags: &Vec<bool>) -> (r: u32)
    requires
        base + 8 <= data.len(),
        flags@.len() == 8,
        forall|j: int| 0 <= j < 8 ==> #[trigger] flags@[j] == word_digit(data@, base as int, j),
    ensures
        r == masked_acc(data@, base as int, 0, 8),
{
    let mut acc: u32 = 0;
    let mut j: usize = 0;
    while j < 8
        invariant
            base + 8 <= data.len(),
            flags@.len() == 8,
            forall|k: int| 0 <= k < 8 ==> #[trigger] flags@[k] == word_digit(data@, base as int, k),
            j <= 8,
            acc == masked_acc(data@, base as int, 0, j as int),
        decreases 8 - j,
    {
        let m: u32 = if flags[j] {
            (data[base + j] % 16) as u32
        } else {
            0
        };
        acc = acc.wrapping_mul(10).wrapping_add(m);
        j = j + 1;
    }
    acc
}

/// Reads the word of eight bytes at `base` as `group_spec` says, pushing onto `indices`.
fn read_group(data: &[u8], base: usize, pending: Option<u32>, n: u32, indices: &mut Vec<u32>) -> (r: Result<
    usize,
    (Option<u32>, u32),
>)
    requires
        base + 8 <= data.len(),
    ensures
        ({
            let (o, res) = group_spec(data@, base as int, pending, n, old(indices)@);
            &&& final(indices)@ == o
            &&& match res {
                Ok(k) => r == Ok::<usize, (Option<u32>, u32)>(k as usize) && 0 <= k <= 7,
                Err(st) => r == Err::<usize, (Option<u32>, u32)>(st),
            }
        }),
{
    let ghost s = data@;
    let ghost pending0 = pending;
    let ghost n0 = n;
    let ghost out0 = indices@;
    let flags = word_digits(data, base);
    let mut pend = pending;
    let mut left = n;
    if !flags[0] {
        if let Some(v) = pend {
            indices.push(v);
            left = left.wrapping_sub(1);
            pend = None;
            if left == 0 {
                return Ok(0);
            }
        }
    }
    let ghost goal = group_ends_spec(s, base as int, pend, left, indices@);
    assert(group_spec(s, base as int, pending0, n0, out0) == goal);
    let num0 = masked_value(data, base, &flags);
    let mut num = num0;
    let mut j: usize = 0;
    while j < 7
        invariant
            s == data@,
            base + 8 <= data.len(),
            flags@.len() == 8,
            forall|k: int| 0 <= k < 8 ==> #[trigger] flags@[k] == word_digit(s, base as int, k),
            j <= 7,
            group_spec(s, base as int, pending0, n0, out0) == goal,
            pending0 == pending,
            n0 == n,
            out0 == old(indices)@,
            goal == after_ends(s, base as int, ends_spec(s, base as int, j as int, num, pend, left, indices@)),
        decreases 7 - j,
    {
        if flags[j] && !flags[j + 1] {
            let pv = match pend {
                Some(v) => v,
                None => 0,
            };
            pend = None;
            let d = ten_pow(7 - j);
            let m = ten_pow(j + 1);
            let v = (num / d).wrapping_add(pv.wrapping_mul(m));
            num = num % d;
            indices.push(v);
            left = left.wrapping_sub(1);
            if left == 0 {
                return Ok(j + 1);
            }
        }
        j = j + 1;
    }
    let pv = match pend {
        Some(v) => v,
        None => 0,
    };
    if flags[7] {
        Err((Some(num.wrapping_add(pv.wrapping_mul(100000000))), left))
    } else {
        Err((None, left))
    }
}

} // verus!

verus! {

/// Reads the bytes left over after the whole groups, from `i`, as `rest_spec` says.
fn read_rest(data: &[u8], i: usize, end: usize, pv: u32, n: u32, indices: &mut Vec<u32>) -> (r: Option<usize>)
    requires
        i <= end <= data.len(),
    ensures
        ({
            let (o, res) = rest_spec(data@, i as int, end as int, pv, n, old(indices)@);
            &&& final(indices)@ == o
            &&& match res {
                Some(a) => r == Some(a as usize) && i <= a <= end,
                None => r is None,
            }
        }),
{
    let ghost s = data@;
    let ghost goal = rest_spec(s, i as int, end as int, pv, n, indices@);
    if n == 0 {
        return Some(i);
    }
    let mut k = i;
    let mut left = n;
    loop
        invariant
            s == data@,
            i <= k <= end <= data.len(),
            left != 0,
            goal == rest_spec(data@, i as int, end as int, pv, n, old(indices)@),
            goal == rest_spec(s, k as int, end as int, pv, left, indices@),
        decreases end - k,
    {
        let (e, v) = digits_onto(data, k, end, pv);
        indices.push(v);
        left = left.wrapping_sub(1);
        if left == 0 {
            return Some(e);
        }
        if e >= end {
            return None;
        }
        proof {
            lemma_find_from(s, e + 1, end as int, ByteClass::Digit);
        }
        match find_class(data, e + 1, end, ByteClass::Digit) {
            None => {
                return None;
            },
            Some(q) => {
                k = q;
            },
        }
    }
}

/// Reads `n` unsigned numbers from `data[p..end]` onto `indices`, as
/// `uints_spec` says, and returns the position after the last one, counted from `p`.
pub fn parse_uints(data: &[u8], p: usize, end: usize, n: u32, indices: &mut Vec<u32>) -> (r: Option<usize>)
    requires
        p <= end <= data.len(),
    ensures
        ({
            let (o, res) = uints_spec(data@, p as int, end as int, n, old(indices)@);
            &&& final(indices)@ == o
            &&& match res {
                Some(a) => r == Some(a as usize) && 0 <= a <= end - p,
                None => r is None,
            }
        }),
{
    let ghost s = data@;
    let ng = (end - p) / 8;
    let ghost goal = groups_spec(s, p as int, 0, ng as int, None, n, indices@);
    let mut c: usize = 0;
    let mut pend: Option<u32> = None;
    let mut left = n;
    while c < ng
        invariant
            s == data@,
            ng == (end - p) / 8,
            p <= end <= data.len(),
            c <= ng,
            goal == groups_spec(s, p as int, 0, ng as int, None, n, old(indices)@),
            goal == groups_spec(s, p as int, c as int, ng as int, pend, left, indices@),
        decreases ng - c,
    {
        assert(p + 8 * c + 8 <= end) by (nonlinear_arith)
            requires
                c < ng,
                ng == (end - p) / 8,
                p <= end,
        ;
        match read_group(data, p + 8 * c, pend, left, indices) {
            Ok(k) => {
                return Some(8 * c + k);
            },
            Err((pd, n2)) => {
                pend = pd;
                left = n2;
            },
        }
        c = c + 1;
    }
    assert(p + 8 * ng <= end) by (nonlinear_arith)
        requires
            ng == (end - p) / 8,
            p <= end,
    ;
    let pv = match pend {
        Some(v) => v,
        None => 0,
    };
    match read_rest(data, p + 8 * ng, end, pv, left, indices) {
        Some(a) => Some(a - p),
        None => None,
    }
}

} // verus!

verus! {

/// Where asking for room for `nf` strides in all, on switching to polygons with `prior`
/// indices stored, fails: more faces already stored than `nf`, or `nf` beyond what a vector
/// of bytes can hold.
pub open spec fn reserve_fails(mode: FaceMode, prior: nat, n: nat, nf: nat) -> bool {
    ||| mode == FaceMode::Triangle && n != 3 && (prior / 3 > nf || nf > isize::MAX)
    ||| mode == FaceMode::Quad && n != 4 && (prior / 4 > nf || nf > isize::MAX)
}

/// Where the end of a face line at `p` leaves the reader: after `\r` and the byte after it,
/// after `\n`, or else after the next `\n` past the byte at `p`.
pub open spec fn after_line_end(s: Seq<u8>, p: int, end: int) -> Option<int> {
    if p >= end {
        None
    } else if s[p] == 13 {
        if p + 2 > end {
            None
        } else {
            Some(p + 2)
        }
    } else if s[p] == 10 {
        Some(p + 1)
    } else {
        match find_from(s, p + 1, end, ByteClass::Newline) {
            Some(q) => Some(q + 1),
            None => None,
        }
    }
}

/// A face line `count index index ...` at `p`, recorded into the faces `fs` (at most `nf`
/// faces are announced): the count (three at least), one byte passed over, spaces passed
/// over, then the indices as `uints_spec` reads them, then the line end. The faces afterwards
/// (the mode and strides change before the indices are read, and indices read stay where
/// the reading fails), and the position after the line.
pub open spec fn face_list_spec(s: Seq<u8>, p: int, end: int, fs: FaceState, nf: nat) -> (FaceState, Option<int>) {
    match parse_u8_spec(s, p, end) {
        None => (fs, None),
        Some((fl, p1)) => if p1 >= end || fl < 3 || reserve_fails(fs.0, fs.1.len(), fl as nat, nf) {
            (fs, None)
        } else {
            let (m, st) = mode_step(fs.0, fs.2, fs.1.len(), fl as nat);
            let p2 = p1 + 1;
            if p2 >= end {
                ((m, fs.1, st), None)
            } else {
                let p3 = if s[p2] == 32 {
                    match find_from(s, p2, end, ByteClass::NotSpace) {
                        Some(q) => q,
                        None => end,
                    }
                } else {
                    p2
                };
                let (idx, r) = uints_spec(s, p3, end, fl as u32, fs.1);
                (
                    (m, idx, st),
                    match r {
                        None => None,
                        Some(k) => after_line_end(s, p3 + k, end),
                    },
                )
            }
        }
    }
}

/// Reads the face line at `data[p..end]` into the faces, as `face_list_spec` says; returns the
/// position after the line.
pub fn parse_face_indices_list(
    data: &[u8],
    p: usize,
    end: usize,
    mode: &mut FaceMode,
    indices: &mut Vec<u32>,
    strides: &mut Vec<u8>,
    nf: usize,
) -> (r: Option<usize>)
    requires
        end <= data.len(),
    ensures
        ({
            let (fs, res) = face_list_spec(data@, p as int, end as int, (*old(mode), old(indices)@, old(strides)@), nf as nat);
            &&& (*final(mode), final(indices)@, final(strides)@) == fs
            &&& match res {
                Some(a) => r == Some(a as usize) && a <= end,
                None => r is None,
            }
        }),
{
    let (fl, p1) = match parse_u8(data, p, end) {
        Some(x) => x,
        None => {
            return None;
        },
    };
    if p1 >= end || fl < 3 {
        return None;
    }
    let prior = indices.len();
    let big = nf > isize::MAX as usize;
    let fails = (*mode == FaceMode::Triangle && fl != 3 && (prior / 3 > nf || big)) || (*mode == FaceMode::Quad
        && fl != 4 && (prior / 4 > nf || big));
    if fails {
        return None;
    }
    step_mode(mode, strides, prior, fl as usize);
    let p2 = p1 + 1;
    if p2 >= end {
        return None;
    }
    let p3 = if data[p2] == 32 {
        match find_class(data, p2, end, ByteClass::NotSpace) {
            Some(q) => q,
            None => end,
        }
    } else {
        p2
    };
    let k = match parse_uints(data, p3, end, fl as u32, indices) {
        Some(k) => k,
        None => {
            return None;
        },
    };
    let p4 = p3 + k;
    if p4 >= end {
        return None;
    }
    if data[p4] == 13 {
        if end - p4 < 2 {
            None
        } else {
            Some(p4 + 2)
        }
    } else if data[p4] == 10 {
        Some(p4 + 1)
    } else {
        match find_newline(data, p4 + 1, end) {
            Some(q) => Some(q + 1),
            None => None,
        }
    }
}

} // verus!
