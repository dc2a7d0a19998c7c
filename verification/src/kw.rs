use vstd::prelude::*;

verus! {

/// `s[p..]` (bounded by `end`) starts with `lit`.
pub open spec fn lit_at(s: Seq<u8>, p: int, end: int, lit: Seq<u8>) -> bool {
    0 <= p && p + lit.len() <= end && s.subrange(p, p + lit.len()) == lit
}

/// `s[a..b]` is exactly `lit`.
pub open spec fn word_is(s: Seq<u8>, a: int, b: int, lit: Seq<u8>) -> bool {
    b - a == lit.len() && lit_at(s, a, b, lit)
}

/// Whether `data[p..end]` starts with `lit`.
pub fn matches_at(data: &[u8], p: usize, end: usize, lit: &[u8]) -> (r: bool)
    requires
        end <= data.len(),
    ensures
        r == lit_at(data@, p as int, end as int, lit@),
{
    if p > end || lit.len() > end - p {
        return false;
    }
    let mut i: usize = 0;
    while i < lit.len()
        invariant
            i <= lit.len(),
            p + lit.len() <= end,
            end <= data.len(),
            forall|j: int| 0 <= j < i ==> data@[p + j] == lit@[j],
        decreases lit.len() - i,
    {
        if data[p + i] != lit[i] {
            assert(data@.subrange(p as int, p + lit@.len())[i as int] != lit@[i as int]);
            return false;
        }
        i = i + 1;
    }
    assert(data@.subrange(p as int, p + lit@.len()) =~= lit@);
    true
}

/// Whether `data[a..b]` is exactly `lit`.
pub fn word_equals(data: &[u8], a: usize, b: usize, lit: &[u8]) -> (r: bool)
    requires
        b <= data.len(),
    ensures
        r == word_is(data@, a as int, b as int, lit@),
{
    a <= b && b - a == lit.len() && matches_at(data, a, b, lit)
}

/// The bytes of `"ply"`.
pub open spec fn kw_ply() -> Seq<u8> {
    seq![112u8, 108, 121]
}

pub fn ply_bytes() -> (r: [u8; 3])
    ensures
        r@ == kw_ply(),
{
    let r: [u8; 3] = [112, 108, 121];
    assert(r@ =~= kw_ply());
    r
}

/// The bytes of `"char"`.
pub open spec fn kw_char() -> Seq<u8> {
    seq![99u8, 104, 97, 114]
}

pub fn char_bytes() -> (r: [u8; 4])
    ensures
        r@ == kw_char(),
{
    let r: [u8; 4] = [99, 104, 97, 114];
    assert(r@ =~= kw_char());
    r
}

/// The bytes of `" "`.
pub open spec fn kw_sp() -> Seq<u8> {
    seq![32u8]
}

pub fn sp_bytes() -> (r: [u8; 1])
    ensures
        r@ == kw_sp(),
{
    let r: [u8; 1] = [32];
    assert(r@ =~= kw_sp());
    r
}

/// The bytes of `"ucha"`.
pub open spec fn kw_ucha() -> Seq<u8> {
    seq![117u8, 99, 104, 97]
}

pub fn ucha_bytes() -> (r: [u8; 4])
    ensures
        r@ == kw_ucha(),
{
    let r: [u8; 4] = [117, 99, 104, 97];
    assert(r@ =~= kw_ucha());
    r
}

/// The bytes of `"r "`.
pub open spec fn kw_r_sp() -> Seq<u8> {
    seq![114u8, 32]
}

pub fn r_sp_bytes() -> (r: [u8; 2])
    ensures
        r@ == kw_r_sp(),
{
    let r: [u8; 2] = [114, 32];
    assert(r@ =~= kw_r_sp());
    r
}

/// The bytes of `"shor"`.
pub open spec fn kw_shor() -> Seq<u8> {
    seq![115u8, 104, 111, 114]
}

pub fn shor_bytes() -> (r: [u8; 4])
    ensures
        r@ == kw_shor(),
{
    let r: [u8; 4] = [115, 104, 111, 114];
    assert(r@ =~= kw_shor());
    r
}

/// The bytes of `"t "`.
pub open spec fn kw_t_sp() -> Seq<u8> {
    seq![116u8, 32]
}

pub fn t_sp_bytes() -> (r: [u8; 2])
    ensures
        r@ == kw_t_sp(),
{
    let r: [u8; 2] = [116, 32];
    assert(r@ =~= kw_t_sp());
    r
}

/// The bytes of `"usho"`.
pub open spec fn kw_usho() -> Seq<u8> {
    seq![117u8, 115, 104, 111]
}

pub fn usho_bytes() -> (r: [u8; 4])
    ensures
        r@ == kw_usho(),
{
    let r: [u8; 4] = [117, 115, 104, 111];
    assert(r@ =~= kw_usho());
    r
}

/// The bytes of `"rt "`.
pub open spec fn kw_rt_sp() -> Seq<u8> {
    seq![114u8, 116, 32]
}

pub fn rt_sp_bytes() -> (r: [u8; 3])
    ensures
        r@ == kw_rt_sp(),
{
    let r: [u8; 3] = [114, 116, 32];
    assert(r@ =~= kw_rt_sp());
    r
}

/// The bytes of `"int "`.
pub open spec fn kw_int_sp() -> Seq<u8> {
    seq![105u8, 110, 116, 32]
}

pub fn int_sp_bytes() -> (r: [u8; 4])
    ensures
        r@ == kw_int_sp(),
{
    let r: [u8; 4] = [105, 110, 116, 32];
    assert(r@ =~= kw_int_sp());
    r
}

/// The bytes of `"uint"`.
pub open spec fn kw_uint() -> Seq<u8> {
    seq![117u8, 105, 110, 116]
}

pub fn uint_bytes() -> (r: [u8; 4])
    ensures
        r@ == kw_uint(),
{
    let r: [u8; 4] = [117, 105, 110, 116];
    assert(r@ =~= kw_uint());
    r
}

/// The bytes of `"floa"`.
pub open spec fn kw_floa() -> Seq<u8> {
    seq![102u8, 108, 111, 97]
}

pub fn floa_bytes() -> (r: [u8; 4])
    ensures
        r@ == kw_floa(),
{
    let r: [u8; 4] = [102, 108, 111, 97];
    assert(r@ =~= kw_floa());
    r
}

/// The bytes of `"doub"`.
pub open spec fn kw_doub() -> Seq<u8> {
    seq![100u8, 111, 117, 98]
}

pub fn doub_bytes() -> (r: [u8; 4])
    ensures
        r@ == kw_doub(),
{
    let r: [u8; 4] = [100, 111, 117, 98];
    assert(r@ =~= kw_doub());
    r
}

/// The bytes of `"le"`.
pub open spec fn kw_le() -> Seq<u8> {
    seq![108u8, 101]
}

pub fn le_bytes() -> (r: [u8; 2])
    ensures
        r@ == kw_le(),
{
    let r: [u8; 2] = [108, 101];
    assert(r@ =~= kw_le());
    r
}

/// The bytes of `"le "`.
pub open spec fn kw_le_sp() -> Seq<u8> {
    seq![108u8, 101, 32]
}

pub fn le_sp_bytes() -> (r: [u8; 3])
    ensures
        r@ == kw_le_sp(),
{
    let r: [u8; 3] = [108, 101, 32];
    assert(r@ =~= kw_le_sp());
    r
}

/// The bytes of `"list"`.
pub open spec fn kw_list() -> Seq<u8> {
    seq![108u8, 105, 115, 116]
}

pub fn list_bytes() -> (r: [u8; 4])
    ensures
        r@ == kw_list(),
{
    let r: [u8; 4] = [108, 105, 115, 116];
    assert(r@ =~= kw_list());
    r
}

/// The bytes of `"format "`.
pub open spec fn kw_format_sp() -> Seq<u8> {
    seq![102u8, 111, 114, 109, 97, 116, 32]
}

pub fn format_sp_bytes() -> (r: [u8; 7])
    ensures
        r@ == kw_format_sp(),
{
    let r: [u8; 7] = [102, 111, 114, 109, 97, 116, 32];
    assert(r@ =~= kw_format_sp());
    r
}

/// The bytes of `"ascii 1.0"`.
pub open spec fn kw_ascii_1_0() -> Seq<u8> {
    seq![97u8, 115, 99, 105, 105, 32, 49, 46, 48]
}

pub fn ascii_1_0_bytes() -> (r: [u8; 9])
    ensures
        r@ == kw_ascii_1_0(),
{
    let r: [u8; 9] = [97, 115, 99, 105, 105, 32, 49, 46, 48];
    assert(r@ =~= kw_ascii_1_0());
    r
}

/// The bytes of `"binary_little_endian 1.0"`.
pub open spec fn kw_binary_le_1_0() -> Seq<u8> {
    seq![98u8, 105, 110, 97, 114, 121, 95, 108, 105, 116, 116, 108, 101, 95, 101, 110, 100, 105, 97, 110, 32, 49, 46, 48]
}

pub fn binary_le_1_0_bytes() -> (r: [u8; 24])
    ensures
        r@ == kw_binary_le_1_0(),
{
    let r: [u8; 24] = [98, 105, 110, 97, 114, 121, 95, 108, 105, 116, 116, 108, 101, 95, 101, 110, 100, 105, 97, 110, 32, 49, 46, 48];
    assert(r@ =~= kw_binary_le_1_0());
    r
}

/// The bytes of `"binary_big_endian 1.0"`.
pub open spec fn kw_binary_be_1_0() -> Seq<u8> {
    seq![98u8, 105, 110, 97, 114, 121, 95, 98, 105, 103, 95, 101, 110, 100, 105, 97, 110, 32, 49, 46, 48]
}

pub fn binary_be_1_0_bytes() -> (r: [u8; 21])
    ensures
        r@ == kw_binary_be_1_0(),
{
    let r: [u8; 21] = [98, 105, 110, 97, 114, 121, 95, 98, 105, 103, 95, 101, 110, 100, 105, 97, 110, 32, 49, 46, 48];
    assert(r@ =~= kw_binary_be_1_0());
    r
}

/// The bytes of `"element"`.
pub open spec fn kw_element() -> Seq<u8> {
    seq![101u8, 108, 101, 109, 101, 110, 116]
}

pub fn element_bytes() -> (r: [u8; 7])
    ensures
        r@ == kw_element(),
{
    let r: [u8; 7] = [101, 108, 101, 109, 101, 110, 116];
    assert(r@ =~= kw_element());
    r
}

/// The bytes of `"element "`.
pub open spec fn kw_element_sp() -> Seq<u8> {
    seq![101u8, 108, 101, 109, 101, 110, 116, 32]
}

pub fn element_sp_bytes() -> (r: [u8; 8])
    ensures
        r@ == kw_element_sp(),
{
    let r: [u8; 8] = [101, 108, 101, 109, 101, 110, 116, 32];
    assert(r@ =~= kw_element_sp());
    r
}

/// The bytes of `"vertex "`.
pub open spec fn kw_vertex_sp() -> Seq<u8> {
    seq![118u8, 101, 114, 116, 101, 120, 32]
}

pub fn vertex_sp_bytes() -> (r: [u8; 7])
    ensures
        r@ == kw_vertex_sp(),
{
    let r: [u8; 7] = [118, 101, 114, 116, 101, 120, 32];
    assert(r@ =~= kw_vertex_sp());
    r
}

/// The bytes of `"face "`.
pub open spec fn kw_face_sp() -> Seq<u8> {
    seq![102u8, 97, 99, 101, 32]
}

pub fn face_sp_bytes() -> (r: [u8; 5])
    ensures
        r@ == kw_face_sp(),
{
    let r: [u8; 5] = [102, 97, 99, 101, 32];
    assert(r@ =~= kw_face_sp());
    r
}

/// The bytes of `"property"`.
pub open spec fn kw_property() -> Seq<u8> {
    seq![112u8, 114, 111, 112, 101, 114, 116, 121]
}

pub fn property_bytes() -> (r: [u8; 8])
    ensures
        r@ == kw_property(),
{
    let r: [u8; 8] = [112, 114, 111, 112, 101, 114, 116, 121];
    assert(r@ =~= kw_property());
    r
}

/// The bytes of `"end_head"`.
pub open spec fn kw_end_head() -> Seq<u8> {
    seq![101u8, 110, 100, 95, 104, 101, 97, 100]
}

pub fn end_head_bytes() -> (r: [u8; 8])
    ensures
        r@ == kw_end_head(),
{
    let r: [u8; 8] = [101, 110, 100, 95, 104, 101, 97, 100];
    assert(r@ =~= kw_end_head());
    r
}

/// The bytes of `"er"`.
pub open spec fn kw_er() -> Seq<u8> {
    seq![101u8, 114]
}

pub fn er_bytes() -> (r: [u8; 2])
    ensures
        r@ == kw_er(),
{
    let r: [u8; 2] = [101, 114];
    assert(r@ =~= kw_er());
    r
}

/// The bytes of `"x"`.
pub open spec fn kw_x() -> Seq<u8> {
    seq![120u8]
}

pub fn x_bytes() -> (r: [u8; 1])
    ensures
        r@ == kw_x(),
{
    let r: [u8; 1] = [120];
    assert(r@ =~= kw_x());
    r
}

/// The bytes of `"y"`.
pub open spec fn kw_y() -> Seq<u8> {
    seq![121u8]
}

pub fn y_bytes() -> (r: [u8; 1])
    ensures
        r@ == kw_y(),
{
    let r: [u8; 1] = [121];
    assert(r@ =~= kw_y());
    r
}

/// The bytes of `"z"`.
pub open spec fn kw_z() -> Seq<u8> {
    seq![122u8]
}

pub fn z_bytes() -> (r: [u8; 1])
    ensures
        r@ == kw_z(),
{
    let r: [u8; 1] = [122];
    assert(r@ =~= kw_z());
    r
}

/// The bytes of `"vertex_index"`.
pub open spec fn kw_vertex_index() -> Seq<u8> {
    seq![118u8, 101, 114, 116, 101, 120, 95, 105, 110, 100, 101, 120]
}

pub fn vertex_index_bytes() -> (r: [u8; 12])
    ensures
        r@ == kw_vertex_index(),
{
    let r: [u8; 12] = [118, 101, 114, 116, 101, 120, 95, 105, 110, 100, 101, 120];
    assert(r@ =~= kw_vertex_index());
    r
}

/// The bytes of `"vertex_indices"`.
pub open spec fn kw_vertex_indices() -> Seq<u8> {
    seq![118u8, 101, 114, 116, 101, 120, 95, 105, 110, 100, 105, 99, 101, 115]
}

pub fn vertex_indices_bytes() -> (r: [u8; 14])
    ensures
        r@ == kw_vertex_indices(),
{
    let r: [u8; 14] = [118, 101, 114, 116, 101, 120, 95, 105, 110, 100, 105, 99, 101, 115];
    assert(r@ =~= kw_vertex_indices());
    r
}

/// The bytes of `"obj"`.
pub open spec fn kw_obj() -> Seq<u8> {
    seq![111u8, 98, 106]
}

pub fn obj_bytes() -> (r: [u8; 3])
    ensures
        r@ == kw_obj(),
{
    let r: [u8; 3] = [111, 98, 106];
    assert(r@ =~= kw_obj());
    r
}

/// The bytes of `"off"`.
pub open spec fn kw_off() -> Seq<u8> {
    seq![111u8, 102, 102]
}

pub fn off_bytes() -> (r: [u8; 3])
    ensures
        r@ == kw_off(),
{
    let r: [u8; 3] = [111, 102, 102];
    assert(r@ =~= kw_off());
    r
}

/// The bytes of `"stl"`.
pub open spec fn kw_stl() -> Seq<u8> {
    seq![115u8, 116, 108]
}

pub fn stl_bytes() -> (r: [u8; 3])
    ensures
        r@ == kw_stl(),
{
    let r: [u8; 3] = [115, 116, 108];
    assert(r@ =~= kw_stl());
    r
}

/// The bytes of `"OFF"`.
pub open spec fn kw_off_uc() -> Seq<u8> {
    seq![79u8, 70, 70]
}

pub fn off_uc_bytes() -> (r: [u8; 3])
    ensures
        r@ == kw_off_uc(),
{
    let r: [u8; 3] = [79, 70, 70];
    assert(r@ =~= kw_off_uc());
    r
}
} // verus!
