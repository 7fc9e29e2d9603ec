//! MessagePack: dumping values to bytes and parsing bytes back into values.
use vstd::prelude::*;
use crate::typval_defs::{
    varnumber_T, OK, FAIL, VarType, VarLockStatus, BoolVarValue, SpecialVarValue, typval_vval_union,
    typval_T, list_T, dict_T, dictitem_T, blob_T, partial_T, Callback, DictWatcher, TypVal, VVal,
    ListVal, DictVal, BlobVal, CallbackVal, WatcherVal, tv_view, list_view, dict_view, items_view, dict_index_of,
    mk_tv, num_tv, str_tv, list_tv, blob_tv, dict_tv, empty_dict_val, dict_wf, keys_unique,
    lemma_items_view_ext, lemma_items_view_index, lemma_items_view_push, lemma_items_view_subrange,
    lemma_items_view_add, lemma_items_view_reverse, lemma_items_view_update, lemma_items_view_insert,
    lemma_items_view_remove, lemma_items_view_empty,
};
use crate::charset::{nr2str, nr2bytes, str2nr, str2nr_all};
use crate::dup::{bytes_dup, tv_dup, list_dup, dict_dup, blob_dup, items_dup, slice_to_vec, callback_dup, append_bytes};
use crate::typval::{
    number_of, number_chk_result, string_of, string_or_empty, tv_get_number_chk, tv_get_number,
    tv_get_bool, tv_get_string, tv_get_string_chk, tv_get_string_buf_chk, tv_equal, tv_equal_spec,
    bytes_eq, dict_find_index,
};
use crate::typval_list::lemma_items_view_index_all;
use crate::typval_dict::lemma_dict_view_parts;
use crate::mbyte::bytes_between;
use crate::typval_defs::dummy_tv;
use crate::funcs_basic::{with_list, with_blob};
use crate::funcs_misc::{join_lines, join_item_strings};
use crate::funcs_basic::set_list;
use crate::typval_list::{tv_list_alloc, with_items};
use crate::typval_copy::append_items;

verus! {

broadcast use vstd::std_specs::vec::axiom_vec_index_decreases;

// ── bytes and numbers ──

/// `256` to the power `w`.
pub open spec fn pow256(w: nat) -> nat
    decreases w,
{
    if w == 0 { 1 } else { 256 * pow256((w - 1) as nat) }
}

/// The low `w` bytes of `n`, most significant first.
pub open spec fn be_bytes(n: nat, w: nat) -> Seq<u8>
    decreases w,
{
    if w == 0 { Seq::empty() } else { be_bytes(n / 256, (w - 1) as nat).push((n % 256) as u8) }
}

/// The number that big-endian bytes spell.
pub open spec fn from_be(s: Seq<u8>) -> nat
    decreases s.len(),
{
    if s.len() == 0 { 0 } else { from_be(s.drop_last()) * 256 + s.last() as nat }
}

/// 2^64 plus a negative `n`: its two's complement on 64 bits.
pub open spec fn twos64(n: int) -> nat {
    (n + 0x1_0000_0000_0000_0000) as nat
}

proof fn lemma_pow256_pos(w: nat)
    ensures pow256(w) > 0,
    decreases w,
{
    if w > 0 { lemma_pow256_pos((w - 1) as nat); }
}

proof fn lemma_pow256_values()
    ensures pow256(1) == 0x100, pow256(2) == 0x1_0000, pow256(4) == 0x1_0000_0000,
        pow256(8) == 0x1_0000_0000_0000_0000,
{
    reveal_with_fuel(pow256, 9);
}

proof fn lemma_be_bytes_len(n: nat, w: nat)
    ensures be_bytes(n, w).len() == w,
    decreases w,
{
    if w > 0 { lemma_be_bytes_len(n / 256, (w - 1) as nat); }
}

/// Reading back `w` written bytes gives the number modulo `256^w`.
proof fn lemma_from_be_bytes(n: nat, w: nat)
    ensures from_be(be_bytes(n, w)) == n % pow256(w),
    decreases w,
{
    if w == 0 {
    } else {
        let p = pow256((w - 1) as nat);
        lemma_pow256_pos((w - 1) as nat);
        lemma_from_be_bytes(n / 256, (w - 1) as nat);
        lemma_be_bytes_len(n / 256, (w - 1) as nat);
        let s = be_bytes(n, w);
        assert(s.drop_last() =~= be_bytes(n / 256, (w - 1) as nat));
        vstd::arithmetic::div_mod::lemma_breakdown(n as int, 256, p as int);
        assert(pow256(w) == 256 * p);
    }
}

proof fn lemma_from_be_bound(s: Seq<u8>)
    ensures from_be(s) < pow256(s.len()),
    decreases s.len(),
{
    if s.len() > 0 {
        lemma_from_be_bound(s.drop_last());
        let a = from_be(s.drop_last());
        let p = pow256((s.len() - 1) as nat);
        assert(a * 256 + s.last() < 256 * p) by (nonlinear_arith)
            requires a < p, s.last() < 256;
    }
}

// ── encoding ──

/// MessagePack for a non-negative integer, in the fewest bytes.
pub open spec fn pack_uint_spec(n: nat) -> Seq<u8> {
    if n < 0x80 {
        seq![n as u8]
    } else if n <= 0xff {
        seq![0xccu8, n as u8]
    } else if n <= 0xffff {
        seq![0xcdu8] + be_bytes(n, 2)
    } else if n <= 0xffff_ffff {
        seq![0xceu8] + be_bytes(n, 4)
    } else {
        seq![0xcfu8] + be_bytes(n, 8)
    }
}

/// MessagePack for a Number: the unsigned forms for non-negative numbers,
/// the signed forms (in two's complement) for negative ones, fewest bytes.
pub open spec fn pack_int_spec(n: int) -> Seq<u8> {
    if n >= 0 {
        pack_uint_spec(n as nat)
    } else if n >= -32 {
        seq![(n + 256) as u8]
    } else if n >= -128 {
        seq![0xd0u8, (n + 256) as u8]
    } else if n >= -32768 {
        seq![0xd1u8] + be_bytes(twos64(n), 2)
    } else if n >= -0x8000_0000 {
        seq![0xd2u8] + be_bytes(twos64(n), 4)
    } else {
        seq![0xd3u8] + be_bytes(twos64(n), 8)
    }
}

/// Header of a str of `n` bytes.
pub open spec fn str_header(n: nat) -> Seq<u8> {
    if n < 32 {
        seq![(0xa0 + n) as u8]
    } else if n <= 0xff {
        seq![0xd9u8, n as u8]
    } else if n <= 0xffff {
        seq![0xdau8] + be_bytes(n, 2)
    } else {
        seq![0xdbu8] + be_bytes(n, 4)
    }
}

/// Header of a bin of `n` bytes.
pub open spec fn bin_header(n: nat) -> Seq<u8> {
    if n <= 0xff {
        seq![0xc4u8, n as u8]
    } else if n <= 0xffff {
        seq![0xc5u8] + be_bytes(n, 2)
    } else {
        seq![0xc6u8] + be_bytes(n, 4)
    }
}

/// Header of an array of `n` items.
pub open spec fn array_header(n: nat) -> Seq<u8> {
    if n < 16 {
        seq![(0x90 + n) as u8]
    } else if n <= 0xffff {
        seq![0xdcu8] + be_bytes(n, 2)
    } else {
        seq![0xddu8] + be_bytes(n, 4)
    }
}

/// Header of a map of `n` entries.
pub open spec fn map_header(n: nat) -> Seq<u8> {
    if n < 16 {
        seq![(0x80 + n) as u8]
    } else if n <= 0xffff {
        seq![0xdeu8] + be_bytes(n, 2)
    } else {
        seq![0xdfu8] + be_bytes(n, 4)
    }
}

/// The MessagePack that `msgpackdump()` writes for a value, or `None` for a
/// value it cannot dump (a Funcref, a Partial, an unknown value). `v:null`
/// is nil, Booleans are bool, Numbers are ints, Floats are float64, Strings
/// and Blobs are bin, Lists are arrays and Dicts are maps whose keys are str.
pub open spec fn encode_spec(t: TypVal) -> Option<Seq<u8>>
    decreases t, 0int,
{
    match (t.ty, t.v) {
        (VarType::VAR_SPECIAL, _) => Some(seq![0xc0u8]),
        (VarType::VAR_BOOL, VVal::Bool(b)) => Some(seq![if b == BoolVarValue::kBoolVarTrue { 0xc3u8 } else { 0xc2u8 }]),
        (VarType::VAR_NUMBER, VVal::Number(n)) => Some(pack_int_spec(n)),
        (VarType::VAR_FLOAT, VVal::Float(f)) => Some(seq![0xcbu8] + be_bytes(f as nat, 8)),
        (VarType::VAR_STRING, VVal::Str(s)) => Some(bin_header(s.len()) + s),
        (VarType::VAR_BLOB, VVal::Blob(b)) => Some(
            match b {
                Some(bv) => bin_header(bv.bytes.len()) + bv.bytes,
                None => bin_header(0),
            },
        ),
        (VarType::VAR_LIST, VVal::List(l)) => match l {
            None => Some(array_header(0)),
            Some(lv) => match encode_items(lv.items, lv.items.len() as int) {
                Some(body) => Some(array_header(lv.items.len()) + body),
                None => None,
            },
        },
        (VarType::VAR_DICT, VVal::Dict(d)) => match d {
            None => Some(map_header(0)),
            Some(dv) => match encode_pairs(dv.keys, dv.vals, dv.vals.len() as int) {
                Some(body) => Some(map_header(dv.vals.len()) + body),
                None => None,
            },
        },
        _ => None,
    }
}

/// The encodings of the first `n` items, one after another.
pub open spec fn encode_items(s: Seq<TypVal>, n: int) -> Option<Seq<u8>>
    decreases s, n,
{
    if n <= 0 || n > s.len() {
        Some(Seq::empty())
    } else {
        match (encode_items(s, n - 1), encode_spec(s[n - 1])) {
            (Some(a), Some(b)) => Some(a + b),
            _ => None,
        }
    }
}

/// The first `n` entries of a map: each key as a str, then its value.
pub open spec fn encode_pairs(keys: Seq<Seq<u8>>, vals: Seq<TypVal>, n: int) -> Option<Seq<u8>>
    decreases vals, n,
{
    if n <= 0 || n > vals.len() {
        Some(Seq::empty())
    } else {
        match (encode_pairs(keys, vals, n - 1), encode_spec(vals[n - 1])) {
            (Some(a), Some(b)) => Some(a + (str_header(keys[n - 1].len()) + keys[n - 1]) + b),
            _ => None,
        }
    }
}

proof fn lemma_encode_items_none(s: Seq<TypVal>, k: int, m: int)
    requires 0 < k <= m <= s.len(), encode_items(s, k) is None,
    ensures encode_items(s, m) is None,
    decreases m - k,
{
    if m > k { lemma_encode_items_none(s, k, m - 1); }
}

proof fn lemma_encode_pairs_none(keys: Seq<Seq<u8>>, vals: Seq<TypVal>, k: int, m: int)
    requires 0 < k <= m <= vals.len(), encode_pairs(keys, vals, k) is None,
    ensures encode_pairs(keys, vals, m) is None,
    decreases m - k,
{
    if m > k { lemma_encode_pairs_none(keys, vals, k, m - 1); }
}

/// Append the low `w` bytes of `n`, most significant first.
fn push_be(out: &mut Vec<u8>, n: u64, w: usize)
    ensures final(out)@ == old(out)@ + be_bytes(n as nat, w as nat),
    decreases w,
{
    if w > 0 {
        push_be(out, n / 256, w - 1);
        out.push((n % 256) as u8);
        assert(final(out)@ =~= old(out)@ + be_bytes(n as nat, w as nat));
    } else {
        assert(final(out)@ =~= old(out)@ + be_bytes(n as nat, w as nat));
    }
}

/// Append a tag byte followed by the low `w` bytes of `n`.
fn push_tag_be(out: &mut Vec<u8>, tag: u8, n: u64, w: usize)
    ensures final(out)@ == old(out)@ + (seq![tag] + be_bytes(n as nat, w as nat)),
{
    out.push(tag);
    push_be(out, n, w);
    assert(final(out)@ =~= old(out)@ + (seq![tag] + be_bytes(n as nat, w as nat)));
}

/// Append two bytes.
fn push2(out: &mut Vec<u8>, a: u8, b: u8)
    ensures final(out)@ == old(out)@ + seq![a, b],
{
    out.push(a);
    out.push(b);
    assert(final(out)@ =~= old(out)@ + seq![a, b]);
}

/// Append one byte.
fn push1(out: &mut Vec<u8>, a: u8)
    ensures final(out)@ == old(out)@ + seq![a],
{
    out.push(a);
    assert(final(out)@ =~= old(out)@ + seq![a]);
}

/// Append the MessagePack of the Number `n`.
fn mpack_pack_int(n: varnumber_T, out: &mut Vec<u8>)
    ensures final(out)@ == old(out)@ + pack_int_spec(n as int),
{
    if n >= 0 {
        let u = n as u64;
        if u < 0x80 {
            push1(out, u as u8);
        } else if u <= 0xff {
            push2(out, 0xcc, u as u8);
        } else if u <= 0xffff {
            push_tag_be(out, 0xcd, u, 2);
        } else if u <= 0xffff_ffff {
            push_tag_be(out, 0xce, u, 4);
        } else {
            push_tag_be(out, 0xcf, u, 8);
        }
    } else if n >= -32 {
        push1(out, (n + 256) as u8);
    } else if n >= -128 {
        push2(out, 0xd0, (n + 256) as u8);
    } else {
        let u: u64 = ((n as i128) + 0x1_0000_0000_0000_0000i128) as u64;
        assert(u as nat == twos64(n as int));
        if n >= -32768 {
            push_tag_be(out, 0xd1, u, 2);
        } else if n >= -0x8000_0000 {
            push_tag_be(out, 0xd2, u, 4);
        } else {
            push_tag_be(out, 0xd3, u, 8);
        }
    }
}

/// Append a str header and the bytes `b`.
fn mpack_pack_str(b: &[u8], out: &mut Vec<u8>)
    ensures final(out)@ == old(out)@ + (str_header(b@.len()) + b@),
{
    let n = b.len();
    if n < 32 {
        push1(out, (0xa0 + n) as u8);
    } else if n <= 0xff {
        push2(out, 0xd9, n as u8);
    } else if n <= 0xffff {
        push_tag_be(out, 0xda, n as u64, 2);
    } else {
        push_tag_be(out, 0xdb, n as u64, 4);
    }
    let ghost mid = out@;
    append_bytes(out, b);
    assert(final(out)@ =~= old(out)@ + (str_header(b@.len()) + b@));
}

/// Append a bin header and the bytes `b`.
fn mpack_pack_bin(b: &[u8], out: &mut Vec<u8>)
    ensures final(out)@ == old(out)@ + (bin_header(b@.len()) + b@),
{
    let n = b.len();
    if n <= 0xff {
        push2(out, 0xc4, n as u8);
    } else if n <= 0xffff {
        push_tag_be(out, 0xc5, n as u64, 2);
    } else {
        push_tag_be(out, 0xc6, n as u64, 4);
    }
    append_bytes(out, b);
    assert(final(out)@ =~= old(out)@ + (bin_header(b@.len()) + b@));
}

/// Append an array header for `n` items.
fn mpack_pack_array_len(n: usize, out: &mut Vec<u8>)
    ensures final(out)@ == old(out)@ + array_header(n as nat),
{
    if n < 16 {
        push1(out, (0x90 + n) as u8);
    } else if n <= 0xffff {
        push_tag_be(out, 0xdc, n as u64, 2);
    } else {
        push_tag_be(out, 0xdd, n as u64, 4);
    }
}

/// Append a map header for `n` entries.
fn mpack_pack_map_len(n: usize, out: &mut Vec<u8>)
    ensures final(out)@ == old(out)@ + map_header(n as nat),
{
    if n < 16 {
        push1(out, (0x80 + n) as u8);
    } else if n <= 0xffff {
        push_tag_be(out, 0xde, n as u64, 2);
    } else {
        push_tag_be(out, 0xdf, n as u64, 4);
    }
}

/// Append the MessagePack of `tv` to `out`; false (with `out` partly
/// written) when `tv` holds something that cannot be dumped.
#[verifier::loop_isolation(false)]
fn mpack_encode_tv(tv: &typval_T, out: &mut Vec<u8>) -> (r: bool)
    ensures
        r == encode_spec(tv@) is Some,
        r ==> final(out)@ == old(out)@ + encode_spec(tv@)->Some_0,
    decreases tv,
{
    match (&tv.v_type, &tv.vval) {
        (VarType::VAR_SPECIAL, _) => {
            push1(out, 0xc0);
            true
        },
        (VarType::VAR_BOOL, typval_vval_union::v_bool(b)) => {
            push1(out, if *b == BoolVarValue::kBoolVarTrue { 0xc3u8 } else { 0xc2u8 });
            true
        },
        (VarType::VAR_NUMBER, typval_vval_union::v_number(n)) => {
            mpack_pack_int(*n, out);
            true
        },
        (VarType::VAR_FLOAT, typval_vval_union::v_float(f)) => {
            push_tag_be(out, 0xcb, *f, 8);
            true
        },
        (VarType::VAR_STRING, typval_vval_union::v_string(s)) => {
            mpack_pack_bin(s.as_slice(), out);
            true
        },
        (VarType::VAR_BLOB, typval_vval_union::v_blob(b)) => {
            match b {
                Some(bv) => { mpack_pack_bin(bv.bv_ga.as_slice(), out); },
                None => {
                    let empty: Vec<u8> = Vec::new();
                    mpack_pack_bin(empty.as_slice(), out);
                    assert(empty@ =~= Seq::<u8>::empty());
                    assert(final(out)@ =~= old(out)@ + bin_header(0));
                },
            }
            true
        },
        (VarType::VAR_LIST, typval_vval_union::v_list(lo)) => {
            match lo {
                None => {
                    mpack_pack_array_len(0, out);
                    true
                },
                Some(l) => {
                    let ghost iv = items_view(l.lv_items@);
                    proof { lemma_items_view_index_all(l.lv_items@); }
                    mpack_pack_array_len(l.lv_items.len(), out);
                    let ghost start = out@;
                    let mut i: usize = 0;
                    while i < l.lv_items.len()
                        invariant
                            i <= l.lv_items.len(),
                            encode_items(iv, i as int) is Some,
                            out@ == start + encode_items(iv, i as int)->Some_0,
                        decreases l.lv_items.len() - i,
                    {
                        proof {
                            assert(decreases_to!(tv => tv.vval));
                            assert(decreases_to!(tv.vval => tv.vval->v_list_0));
                            assert(decreases_to!(l.lv_items => l.lv_items@[i as int]));
                        }
                        let ok = mpack_encode_tv(&l.lv_items[i], out);
                        if !ok {
                            proof { lemma_encode_items_none(iv, i as int + 1, iv.len() as int); }
                            return false;
                        }
                        assert(out@ =~= start + encode_items(iv, i as int + 1)->Some_0);
                        i += 1;
                    }
                    assert(final(out)@ =~= old(out)@ + encode_spec(tv@)->Some_0);
                    true
                },
            }
        },
        (VarType::VAR_DICT, typval_vval_union::v_dict(dopt)) => {
            match dopt {
                None => {
                    mpack_pack_map_len(0, out);
                    true
                },
                Some(d) => {
                    proof { lemma_dict_view_parts(*d); }
                    let ghost dv = d@;
                    mpack_pack_map_len(d.dv_hashtab.len(), out);
                    let ghost start = out@;
                    let mut i: usize = 0;
                    while i < d.dv_hashtab.len()
                        invariant
                            i <= d.dv_hashtab.len(),
                            encode_pairs(dv.keys, dv.vals, i as int) is Some,
                            out@ == start + encode_pairs(dv.keys, dv.vals, i as int)->Some_0,
                        decreases d.dv_hashtab.len() - i,
                    {
                        proof {
                            assert(decreases_to!(tv => tv.vval));
                            assert(decreases_to!(tv.vval => tv.vval->v_dict_0));
                            assert(decreases_to!(d.dv_hashtab => d.dv_hashtab@[i as int]));
                            assert(decreases_to!(d => d.dv_hashtab@[i as int].di_tv));
                        }
                        let ghost before = out@;
                        mpack_pack_str(d.dv_hashtab[i].di_key.as_slice(), out);
                        let ok = mpack_encode_tv(&d.dv_hashtab[i].di_tv, out);
                        if !ok {
                            proof { lemma_encode_pairs_none(dv.keys, dv.vals, i as int + 1, dv.vals.len() as int); }
                            return false;
                        }
                        assert(out@ =~= start + encode_pairs(dv.keys, dv.vals, i as int + 1)->Some_0);
                        i += 1;
                    }
                    assert(final(out)@ =~= old(out)@ + encode_spec(tv@)->Some_0);
                    true
                },
            }
        },
        _ => false,
    }
}

// ── decoding ──

/// `v:null`.
pub open spec fn null_tv() -> TypVal {
    mk_tv(VarType::VAR_SPECIAL, VVal::Special(SpecialVarValue::kSpecialVarNull))
}

/// `v:true` or `v:false`.
pub open spec fn bool_tv(b: bool) -> TypVal {
    mk_tv(VarType::VAR_BOOL, VVal::Bool(if b { BoolVarValue::kBoolVarTrue } else { BoolVarValue::kBoolVarFalse }))
}

/// The Float with IEEE-754 bits `bits`.
pub open spec fn float_tv(bits: nat) -> TypVal {
    mk_tv(VarType::VAR_FLOAT, VVal::Float(bits as u64))
}

/// What follows position `p` of `b`.
pub open spec fn suffix(b: Seq<u8>, p: int) -> Seq<u8> {
    b.subrange(p, b.len() as int)
}

/// `w` bytes read as a big-endian number, and what follows them.
pub open spec fn take_be(b: Seq<u8>, w: nat) -> Option<(nat, Seq<u8>)> {
    if b.len() < w { None } else { Some((from_be(b.subrange(0, w as int)), suffix(b, w as int))) }
}

/// `n` bytes, and what follows them.
pub open spec fn take_bytes(b: Seq<u8>, n: nat) -> Option<(Seq<u8>, Seq<u8>)> {
    if b.len() < n { None } else { Some((b.subrange(0, n as int), suffix(b, n as int))) }
}

/// A length in `w` bytes, then that many bytes.
pub open spec fn take_sized(b: Seq<u8>, w: nat) -> Option<(Seq<u8>, Seq<u8>)> {
    match take_be(b, w) {
        None => None,
        Some((n, r)) => take_bytes(r, n),
    }
}

/// An unsigned number read from `w` bytes, as two's complement.
pub open spec fn signed_of(u: nat, w: nat) -> int {
    if u >= pow256(w) / 2 { u - pow256(w) } else { u as int }
}

/// `m` shifted left until it reaches `2^23` (at most 23 times), with the
/// number of shifts.
pub open spec fn normalize_sub(m: nat, k: nat) -> (nat, nat)
    decreases 23 - k,
{
    if m >= 0x80_0000 || k >= 23 { (m, k) } else { normalize_sub(2 * m, k + 1) }
}

/// The bits of the double with the value of the single whose bits are `x`
/// (a NaN keeps its payload and becomes quiet).
pub open spec fn widen_f32(x: nat) -> nat {
    let s64 = (x / 0x8000_0000) * 0x8000_0000_0000_0000;
    let e = (x / 0x80_0000) % 256;
    let m = x % 0x80_0000;
    if e == 255 {
        s64 + 0x7ff0_0000_0000_0000 + (if m == 0 { 0 } else if m >= 0x40_0000 { m } else { m + 0x40_0000 }) * 0x2000_0000
    } else if e == 0 {
        if m == 0 {
            s64
        } else {
            let (mm, k) = normalize_sub(m, 0);
            (s64 + (897 - k) * 0x10_0000_0000_0000 + (mm % 0x80_0000) * 0x2000_0000) as nat
        }
    } else {
        s64 + (e + 896) * 0x10_0000_0000_0000 + m * 0x2000_0000
    }
}

pub open spec fn as_blob(o: Option<(Seq<u8>, Seq<u8>)>) -> Option<(TypVal, Seq<u8>)> {
    match o { None => None, Some((s, r)) => Some((blob_tv(s), r)) }
}

pub open spec fn as_str(o: Option<(Seq<u8>, Seq<u8>)>) -> Option<(TypVal, Seq<u8>)> {
    match o { None => None, Some((s, r)) => Some((str_tv(s), r)) }
}

pub open spec fn as_uint(o: Option<(nat, Seq<u8>)>) -> Option<(TypVal, Seq<u8>)> {
    match o {
        None => None,
        Some((n, r)) => if n < 0x8000_0000_0000_0000 { Some((num_tv(n as int), r)) } else { None },
    }
}

pub open spec fn as_int(o: Option<(nat, Seq<u8>)>, w: nat) -> Option<(TypVal, Seq<u8>)> {
    match o { None => None, Some((n, r)) => Some((num_tv(signed_of(n, w)), r)) }
}

/// A value that starts with the byte `tag` (not an array or a map), with
/// what follows it. Positive and negative fixints, ints and uints are
/// Numbers (a uint above the largest Number does not parse), nil is
/// `v:null`, bool a Boolean, float32 and float64 Floats, str a String and
/// bin a Blob. Ext types and unused tags do not parse.
pub open spec fn dec_scalar(tag: u8, r: Seq<u8>) -> Option<(TypVal, Seq<u8>)> {
    if tag <= 0x7f {
        Some((num_tv(tag as int), r))
    } else if 0xa0 <= tag <= 0xbf {
        as_str(take_bytes(r, (tag - 0xa0) as nat))
    } else if tag == 0xc0 {
        Some((null_tv(), r))
    } else if tag == 0xc2 {
        Some((bool_tv(false), r))
    } else if tag == 0xc3 {
        Some((bool_tv(true), r))
    } else if tag == 0xc4 {
        as_blob(take_sized(r, 1))
    } else if tag == 0xc5 {
        as_blob(take_sized(r, 2))
    } else if tag == 0xc6 {
        as_blob(take_sized(r, 4))
    } else if tag == 0xca {
        match take_be(r, 4) { None => None, Some((x, r2)) => Some((float_tv(widen_f32(x)), r2)) }
    } else if tag == 0xcb {
        match take_be(r, 8) { None => None, Some((x, r2)) => Some((float_tv(x), r2)) }
    } else if tag == 0xcc {
        as_uint(take_be(r, 1))
    } else if tag == 0xcd {
        as_uint(take_be(r, 2))
    } else if tag == 0xce {
        as_uint(take_be(r, 4))
    } else if tag == 0xcf {
        as_uint(take_be(r, 8))
    } else if tag == 0xd0 {
        as_int(take_be(r, 1), 1)
    } else if tag == 0xd1 {
        as_int(take_be(r, 2), 2)
    } else if tag == 0xd2 {
        as_int(take_be(r, 4), 4)
    } else if tag == 0xd3 {
        as_int(take_be(r, 8), 8)
    } else if tag == 0xd9 {
        as_str(take_sized(r, 1))
    } else if tag == 0xda {
        as_str(take_sized(r, 2))
    } else if tag == 0xdb {
        as_str(take_sized(r, 4))
    } else if tag >= 0xe0 {
        Some((num_tv(tag - 256), r))
    } else {
        None
    }
}

/// The count of an array or map header that starts with `tag`: read from
/// the tag itself or from the `w` bytes after it.
pub open spec fn container_count(tag: u8, r: Seq<u8>, fix_base: u8, w16: u8, w32: u8) -> Option<(nat, Seq<u8>)> {
    if fix_base <= tag <= fix_base + 15 {
        Some(((tag - fix_base) as nat, r))
    } else if tag == w16 {
        take_be(r, 2)
    } else if tag == w32 {
        take_be(r, 4)
    } else {
        None
    }
}

/// Whether `tag` starts an array.
pub open spec fn is_array_tag(tag: u8) -> bool {
    (0x90 <= tag <= 0x9f) || tag == 0xdc || tag == 0xdd
}

/// Whether `tag` starts a map.
pub open spec fn is_map_tag(tag: u8) -> bool {
    (0x80 <= tag <= 0x8f) || tag == 0xde || tag == 0xdf
}

/// The first value in `b`, with what follows it; `None` when `b` does not
/// start with a value this parser reads.
pub open spec fn dec_value(b: Seq<u8>) -> Option<(TypVal, Seq<u8>)>
    decreases b.len(), 0int,
{
    if b.len() == 0 {
        None
    } else {
        let tag = b[0];
        let r = suffix(b, 1);
        if is_array_tag(tag) {
            match container_count(tag, r, 0x90, 0xdc, 0xdd) {
                None => None,
                Some((n, r2)) => if r2.len() < b.len() { dec_array(r2, n) } else { None },
            }
        } else if is_map_tag(tag) {
            match container_count(tag, r, 0x80, 0xde, 0xdf) {
                None => None,
                Some((n, r2)) => if r2.len() < b.len() { dec_map(r2, n) } else { None },
            }
        } else {
            dec_scalar(tag, r)
        }
    }
}

/// A List of `n` values read from `b`.
pub open spec fn dec_array(b: Seq<u8>, n: nat) -> Option<(TypVal, Seq<u8>)>
    decreases b.len(), 2int,
{
    match dec_items(b, n) {
        None => None,
        Some((vs, r)) => Some((list_tv(vs), r)),
    }
}

/// `n` values read one after another from `b`.
pub open spec fn dec_items(b: Seq<u8>, n: nat) -> Option<(Seq<TypVal>, Seq<u8>)>
    decreases b.len(), 1int,
{
    if n == 0 {
        Some((Seq::empty(), b))
    } else {
        match dec_value(b) {
            None => None,
            Some((v, r)) => if r.len() < b.len() {
                match dec_items(r, (n - 1) as nat) {
                    None => None,
                    Some((vs, r2)) => Some((seq![v] + vs, r2)),
                }
            } else {
                None
            },
        }
    }
}

/// A map key: a str.
pub open spec fn dec_key(b: Seq<u8>) -> Option<(Seq<u8>, Seq<u8>)> {
    if b.len() == 0 {
        None
    } else {
        let tag = b[0];
        let r = suffix(b, 1);
        if 0xa0 <= tag <= 0xbf {
            take_bytes(r, (tag - 0xa0) as nat)
        } else if tag == 0xd9 {
            take_sized(r, 1)
        } else if tag == 0xda {
            take_sized(r, 2)
        } else if tag == 0xdb {
            take_sized(r, 4)
        } else {
            None
        }
    }
}

/// A Dict of `n` entries read from `b`; a map whose keys are not all
/// distinct strs does not parse.
pub open spec fn dec_map(b: Seq<u8>, n: nat) -> Option<(TypVal, Seq<u8>)>
    decreases b.len(), 2int,
{
    match dec_entries(b, n) {
        None => None,
        Some((ks, vs, r)) => if keys_unique(ks) {
            Some((dict_tv(DictVal { keys: ks, vals: vs, ..empty_dict_val() }), r))
        } else {
            None
        },
    }
}

/// `n` map entries (a key, then its value) read from `b`.
pub open spec fn dec_entries(b: Seq<u8>, n: nat) -> Option<(Seq<Seq<u8>>, Seq<TypVal>, Seq<u8>)>
    decreases b.len(), 1int,
{
    if n == 0 {
        Some((Seq::empty(), Seq::empty(), b))
    } else {
        match dec_key(b) {
            None => None,
            Some((k, r)) => if r.len() < b.len() {
                match dec_value(r) {
                    None => None,
                    Some((v, r2)) => if r2.len() < r.len() {
                        match dec_entries(r2, (n - 1) as nat) {
                            None => None,
                            Some((ks, vs, r3)) => Some((seq![k] + ks, seq![v] + vs, r3)),
                        }
                    } else {
                        None
                    },
                }
            } else {
                None
            },
        }
    }
}

/// The values read one after another from all of `b`, and whether all of
/// `b` was read; reading stops at the first byte that does not start a value.
pub open spec fn dec_stream(b: Seq<u8>) -> (Seq<TypVal>, bool)
    decreases b.len(),
{
    if b.len() == 0 {
        (Seq::empty(), true)
    } else {
        match dec_value(b) {
            None => (Seq::empty(), false),
            Some((v, r)) => if r.len() < b.len() {
                (seq![v] + dec_stream(r).0, dec_stream(r).1)
            } else {
                (Seq::empty(), false)
            },
        }
    }
}

proof fn lemma_suffix(b: Seq<u8>, p: int, k: int)
    requires 0 <= p, 0 <= k, p + k <= b.len(),
    ensures
        suffix(b, p).len() == b.len() - p,
        suffix(suffix(b, p), k) == suffix(b, p + k),
        suffix(b, p).subrange(0, k) == b.subrange(p, p + k),
        p < b.len() ==> suffix(b, p)[0] == b[p],
{
    assert(suffix(suffix(b, p), k) =~= suffix(b, p + k));
    assert(suffix(b, p).subrange(0, k) =~= b.subrange(p, p + k));
}

proof fn lemma_pow256_mono(a: nat, c: nat)
    requires a <= c,
    ensures pow256(a) <= pow256(c),
    decreases c,
{
    if a < c {
        lemma_pow256_mono(a, (c - 1) as nat);
        lemma_pow256_pos((c - 1) as nat);
    }
}

/// `w` bytes of `b` from `pos` read as a big-endian number.
fn read_be(b: &[u8], pos: usize, w: usize) -> (r: u64)
    requires pos + w <= b@.len(), w <= 8,
    ensures r as nat == from_be(b@.subrange(pos as int, pos + w)), (r as nat) < pow256(w as nat),
{
    let mut acc: u64 = 0;
    let mut i: usize = 0;
    let blen = b.len();
    proof { lemma_pow256_values(); }
    assert(b@.subrange(pos as int, pos as int) =~= Seq::<u8>::empty());
    while i < w
        invariant
            i <= w, w <= 8, pos + w <= b@.len(), blen == b@.len(),
            acc as nat == from_be(b@.subrange(pos as int, pos + i)),
            (acc as nat) < pow256(i as nat),
            pow256(8) == 0x1_0000_0000_0000_0000,
        decreases w - i,
    {
        let ghost s = b@.subrange(pos as int, pos + i + 1);
        assert(s.drop_last() =~= b@.subrange(pos as int, pos + i));
        assert(s.last() == b@[pos + i]);
        let ghost p = pow256(i as nat);
        proof {
            lemma_pow256_mono((i + 1) as nat, 8);
            assert(pow256((i + 1) as nat) == 256 * p);
        }
        let byte = b[pos + i];
        assert((acc as nat) * 256 + (byte as nat) < 256 * p) by (nonlinear_arith)
            requires (acc as nat) < p, byte < 256;
        acc = acc * 256 + byte as u64;
        i += 1;
    }
    acc
}

/// The number in the `w` bytes at `pos`, if there are that many.
fn take_be_at(b: &[u8], pos: usize, w: usize) -> (r: Option<u64>)
    requires pos <= b@.len(), w <= 8,
    ensures
        match take_be(suffix(b@, pos as int), w as nat) {
            None => r is None,
            Some((n, rest)) => r is Some && r->Some_0 as nat == n && pos + w <= b@.len()
                && rest == suffix(b@, pos + w) && n < pow256(w as nat),
        },
        r is Some ==> pos + w <= b.len(),
{
    if b.len() - pos < w {
        None
    } else {
        proof { lemma_suffix(b@, pos as int, w as int); }
        Some(read_be(b, pos, w))
    }
}

/// The `n` bytes at `pos`, if there are that many, with the position after them.
fn take_bytes_at(b: &[u8], pos: usize, n: u64) -> (r: Option<(Vec<u8>, usize)>)
    requires pos <= b@.len(),
    ensures
        match take_bytes(suffix(b@, pos as int), n as nat) {
            None => r is None,
            Some((s, rest)) => r is Some && r->Some_0.0@ == s && r->Some_0.1 == pos + n
                && r->Some_0.1 <= b@.len() && rest == suffix(b@, r->Some_0.1 as int),
        },
{
    if ((b.len() - pos) as u64) < n {
        None
    } else {
        let end = pos + n as usize;
        proof { lemma_suffix(b@, pos as int, n as int); }
        Some((bytes_between(b, pos, end), end))
    }
}

/// A length in the `w` bytes at `pos`, then that many bytes.
fn take_sized_at(b: &[u8], pos: usize, w: usize) -> (r: Option<(Vec<u8>, usize)>)
    requires pos <= b@.len(), w <= 8,
    ensures
        match take_sized(suffix(b@, pos as int), w as nat) {
            None => r is None,
            Some((s, rest)) => r is Some && r->Some_0.0@ == s && pos + w <= r->Some_0.1
                && r->Some_0.1 <= b@.len() && rest == suffix(b@, r->Some_0.1 as int),
        },
{
    match take_be_at(b, pos, w) {
        None => None,
        Some(n) => take_bytes_at(b, pos + w, n),
    }
}

/// `u` read back as a two's complement number of `w` bytes.
fn signed_exec(u: u64, w: usize) -> (r: i64)
    requires w == 1 || w == 2 || w == 4 || w == 8, (u as nat) < pow256(w as nat),
    ensures r as int == signed_of(u as nat, w as nat),
{
    proof { lemma_pow256_values(); }
    let full: i128 = if w == 1 { 0x100 } else if w == 2 { 0x1_0000 } else if w == 4 { 0x1_0000_0000 } else { 0x1_0000_0000_0000_0000 };
    assert(full == pow256(w as nat));
    let v: i128 = if (u as i128) >= full / 2 { u as i128 - full } else { u as i128 };
    v as i64
}

fn mk_tv_exec(ty: VarType, v: typval_vval_union) -> (r: typval_T)
    ensures r@ == mk_tv(ty, v@),
{
    typval_T { v_type: ty, v_lock: VarLockStatus::VAR_UNLOCKED, vval: v }
}

fn mk_blob(bytes: Vec<u8>) -> (r: typval_T)
    ensures r@ == blob_tv(bytes@),
{
    mk_tv_exec(VarType::VAR_BLOB, typval_vval_union::v_blob(Some(blob_T { bv_ga: bytes, bv_lock: VarLockStatus::VAR_UNLOCKED, bv_refcount: 0 })))
}

fn mk_string(bytes: Vec<u8>) -> (r: typval_T)
    ensures r@ == str_tv(bytes@),
{
    mk_tv_exec(VarType::VAR_STRING, typval_vval_union::v_string(bytes))
}

fn mk_number(n: varnumber_T) -> (r: typval_T)
    ensures r@ == num_tv(n as int),
{
    mk_tv_exec(VarType::VAR_NUMBER, typval_vval_union::v_number(n))
}

fn mk_float(bits: u64) -> (r: typval_T)
    ensures r@ == float_tv(bits as nat),
{
    mk_tv_exec(VarType::VAR_FLOAT, typval_vval_union::v_float(bits))
}

/// The bits of the double with the value of the single whose bits are `x`.
fn widen_f32_exec(x: u64) -> (r: u64)
    requires x < 0x1_0000_0000,
    ensures r as nat == widen_f32(x as nat),
{
    let s64 = (x / 0x8000_0000) * 0x8000_0000_0000_0000;
    let e = (x / 0x80_0000) % 256;
    let m = x % 0x80_0000;
    if e == 255 {
        let mq: u64 = if m == 0 { 0 } else if m >= 0x40_0000 { m } else { m + 0x40_0000 };
        s64 + 0x7ff0_0000_0000_0000 + mq * 0x2000_0000
    } else if e == 0 {
        if m == 0 {
            s64
        } else {
            let mut mm: u64 = m;
            let mut k: u64 = 0;
            while mm < 0x80_0000 && k < 23
                invariant
                    k <= 23, mm < 0x100_0000,
                    normalize_sub(mm as nat, k as nat) == normalize_sub(m as nat, 0),
                decreases 23 - k,
            {
                mm = mm * 2;
                k = k + 1;
            }
            s64 + (897 - k) * 0x10_0000_0000_0000 + (mm % 0x80_0000) * 0x2000_0000
        }
    } else {
        s64 + (e + 896) * 0x10_0000_0000_0000 + m * 0x2000_0000
    }
}

/// The value that starts at `pos` when its first byte is not that of an
/// array or a map, with the position after it.
fn dec_scalar_at(b: &[u8], pos: usize) -> (r: Option<(typval_T, usize)>)
    requires pos < b@.len(),
    ensures
        match dec_scalar(b@[pos as int], suffix(b@, pos + 1)) {
            None => r is None,
            Some((v, rest)) => r is Some && r->Some_0.0@ == v && pos < r->Some_0.1 <= b@.len()
                && rest == suffix(b@, r->Some_0.1 as int),
        },
{
    let tag = b[pos];
    let p = pos + 1;
    if tag <= 0x7f {
        Some((mk_number(tag as varnumber_T), p))
    } else if 0xa0 <= tag && tag <= 0xbf {
        match take_bytes_at(b, p, (tag - 0xa0) as u64) {
            None => None,
            Some((s, q)) => Some((mk_string(s), q)),
        }
    } else if tag == 0xc0 {
        Some((mk_tv_exec(VarType::VAR_SPECIAL, typval_vval_union::v_special(SpecialVarValue::kSpecialVarNull)), p))
    } else if tag == 0xc2 {
        Some((mk_tv_exec(VarType::VAR_BOOL, typval_vval_union::v_bool(BoolVarValue::kBoolVarFalse)), p))
    } else if tag == 0xc3 {
        Some((mk_tv_exec(VarType::VAR_BOOL, typval_vval_union::v_bool(BoolVarValue::kBoolVarTrue)), p))
    } else if tag == 0xc4 || tag == 0xc5 || tag == 0xc6 {
        let w: usize = if tag == 0xc4 { 1 } else if tag == 0xc5 { 2 } else { 4 };
        match take_sized_at(b, p, w) {
            None => None,
            Some((s, q)) => Some((mk_blob(s), q)),
        }
    } else if tag == 0xca {
        match take_be_at(b, p, 4) {
            None => None,
            Some(x) => {
                proof { lemma_pow256_values(); }
                Some((mk_float(widen_f32_exec(x)), p + 4))
            },
        }
    } else if tag == 0xcb {
        match take_be_at(b, p, 8) {
            None => None,
            Some(x) => Some((mk_float(x), p + 8)),
        }
    } else if 0xcc <= tag && tag <= 0xcf {
        let w: usize = if tag == 0xcc { 1 } else if tag == 0xcd { 2 } else if tag == 0xce { 4 } else { 8 };
        match take_be_at(b, p, w) {
            None => None,
            Some(x) => if x < 0x8000_0000_0000_0000 { Some((mk_number(x as varnumber_T), p + w)) } else { None },
        }
    } else if 0xd0 <= tag && tag <= 0xd3 {
        let w: usize = if tag == 0xd0 { 1 } else if tag == 0xd1 { 2 } else if tag == 0xd2 { 4 } else { 8 };
        match take_be_at(b, p, w) {
            None => None,
            Some(x) => Some((mk_number(signed_exec(x, w)), p + w)),
        }
    } else if 0xd9 <= tag && tag <= 0xdb {
        let w: usize = if tag == 0xd9 { 1 } else if tag == 0xda { 2 } else { 4 };
        match take_sized_at(b, p, w) {
            None => None,
            Some((s, q)) => Some((mk_string(s), q)),
        }
    } else if tag >= 0xe0 {
        Some((mk_number(tag as varnumber_T - 256), p))
    } else {
        None
    }
}

/// The count of an array or map header whose tag was at `p - 1`.
fn container_count_at(b: &[u8], p: usize, tag: u8, fix_base: u8, w16: u8, w32: u8) -> (r: Option<(u64, usize)>)
    requires p <= b@.len(), fix_base <= 0xf0,
    ensures
        match container_count(tag, suffix(b@, p as int), fix_base, w16, w32) {
            None => r is None,
            Some((n, rest)) => r is Some && r->Some_0.0 as nat == n && p <= r->Some_0.1 <= b@.len()
                && rest == suffix(b@, r->Some_0.1 as int),
        },
{
    if fix_base <= tag && tag <= fix_base + 15 {
        Some(((tag - fix_base) as u64, p))
    } else if tag == w16 {
        match take_be_at(b, p, 2) { None => None, Some(n) => Some((n, p + 2)) }
    } else if tag == w32 {
        match take_be_at(b, p, 4) { None => None, Some(n) => Some((n, p + 4)) }
    } else {
        None
    }
}

/// The key at `pos` of a map entry, with the position after it.
fn dec_key_at(b: &[u8], pos: usize) -> (r: Option<(Vec<u8>, usize)>)
    requires pos <= b@.len(),
    ensures
        match dec_key(suffix(b@, pos as int)) {
            None => r is None,
            Some((k, rest)) => r is Some && r->Some_0.0@ == k && pos < r->Some_0.1 <= b@.len()
                && rest == suffix(b@, r->Some_0.1 as int),
        },
{
    if pos >= b.len() {
        return None;
    }
    let tag = b[pos];
    proof { lemma_suffix(b@, pos as int, 1); }
    let p = pos + 1;
    if 0xa0 <= tag && tag <= 0xbf {
        take_bytes_at(b, p, (tag - 0xa0) as u64)
    } else if tag == 0xd9 {
        take_sized_at(b, p, 1)
    } else if tag == 0xda {
        take_sized_at(b, p, 2)
    } else if tag == 0xdb {
        take_sized_at(b, p, 4)
    } else {
        None
    }
}

/// Items in front of what a parse of several values gives.
pub open spec fn prepend_items(p: Seq<TypVal>, o: Option<(Seq<TypVal>, Seq<u8>)>) -> Option<(Seq<TypVal>, Seq<u8>)> {
    match o { None => None, Some((vs, r)) => Some((p + vs, r)) }
}

/// Entries in front of what a parse of several map entries gives.
pub open spec fn prepend_entries(
    pk: Seq<Seq<u8>>,
    pv: Seq<TypVal>,
    o: Option<(Seq<Seq<u8>>, Seq<TypVal>, Seq<u8>)>,
) -> Option<(Seq<Seq<u8>>, Seq<TypVal>, Seq<u8>)> {
    match o { None => None, Some((ks, vs, r)) => Some((pk + ks, pv + vs, r)) }
}

/// The keys of dictionary entries.
pub open spec fn entry_keys(v: Seq<dictitem_T>) -> Seq<Seq<u8>> {
    Seq::new(v.len(), |i: int| v[i].di_key@)
}

/// The value models of dictionary entries.
pub open spec fn entry_vals(v: Seq<dictitem_T>) -> Seq<TypVal> {
    Seq::new(v.len(), |i: int| if 0 <= i < v.len() { tv_view(v[i].di_tv) } else { dummy_tv() })
}

proof fn lemma_prepend_items(a: Seq<TypVal>, c: Seq<TypVal>, o: Option<(Seq<TypVal>, Seq<u8>)>)
    ensures prepend_items(a, prepend_items(c, o)) == prepend_items(a + c, o),
{
    match o {
        None => {},
        Some((vs, r)) => { assert((a + c) + vs =~= a + (c + vs)); },
    }
}

proof fn lemma_prepend_entries(
    ak: Seq<Seq<u8>>, av: Seq<TypVal>, ck: Seq<Seq<u8>>, cv: Seq<TypVal>,
    o: Option<(Seq<Seq<u8>>, Seq<TypVal>, Seq<u8>)>,
)
    ensures prepend_entries(ak, av, prepend_entries(ck, cv, o)) == prepend_entries(ak + ck, av + cv, o),
{
    match o {
        None => {},
        Some((ks, vs, r)) => {
            assert((ak + ck) + ks =~= ak + (ck + ks));
            assert((av + cv) + vs =~= av + (cv + vs));
        },
    }
}

/// Whether no key occurs twice among the entries.
fn keys_distinct(items: &Vec<dictitem_T>) -> (r: bool)
    ensures r == keys_unique(entry_keys(items@)),
{
    let ghost keys = entry_keys(items@);
    let mut i: usize = 0;
    while i < items.len()
        invariant
            i <= items@.len(),
            keys == entry_keys(items@),
            forall|a: int, c: int| 0 <= a < c < i ==> keys[a] != keys[c],
        decreases items.len() - i,
    {
        let mut j: usize = 0;
        while j < i
            invariant
                j <= i, i < items@.len(),
                keys == entry_keys(items@),
                forall|a: int, c: int| 0 <= a < c < i ==> keys[a] != keys[c],
                forall|a: int| 0 <= a < j ==> keys[a] != keys[i as int],
            decreases i - j,
        {
            if bytes_eq(items[j].di_key.as_slice(), items[i].di_key.as_slice()) {
                assert(keys[j as int] == keys[i as int]);
                assert(!keys_unique(keys));
                return false;
            }
            j += 1;
        }
        i += 1;
    }
    assert forall|a: int, c: int| 0 <= a < keys.len() && 0 <= c < keys.len() && a != c implies keys[a] != keys[c] by {
        if a < c { } else { }
    }
    true
}

/// The value that starts at `pos`, with the position after it.
fn dec_value_at(b: &[u8], pos: usize) -> (r: Option<(typval_T, usize)>)
    requires pos <= b@.len(),
    ensures
        match dec_value(suffix(b@, pos as int)) {
            None => r is None,
            Some((v, rest)) => r is Some && r->Some_0.0@ == v && pos < r->Some_0.1 <= b@.len()
                && rest == suffix(b@, r->Some_0.1 as int),
        },
    decreases b@.len() - pos, 0int,
{
    if pos >= b.len() {
        return None;
    }
    let tag = b[pos];
    proof { lemma_suffix(b@, pos as int, 1); }
    let p = pos + 1;
    if (0x90 <= tag && tag <= 0x9f) || tag == 0xdc || tag == 0xdd {
        match container_count_at(b, p, tag, 0x90, 0xdc, 0xdd) {
            None => None,
            Some((n, q)) => {
                proof { lemma_suffix(b@, pos as int, q - pos); }
                match dec_items_at(b, q, n) {
                    None => None,
                    Some((items, q2)) => {
                        let l = list_T { lv_items: items, lv_lock: VarLockStatus::VAR_UNLOCKED, lv_refcount: 0 };
                        Some((mk_tv_exec(VarType::VAR_LIST, typval_vval_union::v_list(Some(l))), q2))
                    },
                }
            },
        }
    } else if (0x80 <= tag && tag <= 0x8f) || tag == 0xde || tag == 0xdf {
        match container_count_at(b, p, tag, 0x80, 0xde, 0xdf) {
            None => None,
            Some((n, q)) => {
                proof { lemma_suffix(b@, pos as int, q - pos); }
                match dec_entries_at(b, q, n) {
                    None => None,
                    Some((items, q2)) => {
                        if keys_distinct(&items) {
                            let d = dict_T { dv_hashtab: items, dv_lock: VarLockStatus::VAR_UNLOCKED, dv_refcount: 0, dv_watchers: Vec::new() };
                            assert(d@.keys =~= entry_keys(d.dv_hashtab@));
                            assert(d@.vals =~= entry_vals(d.dv_hashtab@));
                            assert(d@.watchers =~= Seq::<WatcherVal>::empty());
                            Some((mk_tv_exec(VarType::VAR_DICT, typval_vval_union::v_dict(Some(d))), q2))
                        } else {
                            None
                        }
                    },
                }
            },
        }
    } else {
        dec_scalar_at(b, pos)
    }
}

/// `n` values read one after another from `pos`, with the position after them.
fn dec_items_at(b: &[u8], pos: usize, n: u64) -> (r: Option<(Vec<typval_T>, usize)>)
    requires pos <= b@.len(),
    ensures
        match dec_items(suffix(b@, pos as int), n as nat) {
            None => r is None,
            Some((vs, rest)) => r is Some && items_view(r->Some_0.0@) == vs && pos <= r->Some_0.1 <= b@.len()
                && rest == suffix(b@, r->Some_0.1 as int),
        },
    decreases b@.len() - pos, 1int,
{
    let mut out: Vec<typval_T> = Vec::new();
    let mut cur: usize = pos;
    let mut i: u64 = 0;
    proof { lemma_items_view_empty(); }
    assert(prepend_items(Seq::empty(), dec_items(suffix(b@, pos as int), n as nat)) == dec_items(suffix(b@, pos as int), n as nat)) by {
        match dec_items(suffix(b@, pos as int), n as nat) {
            None => {},
            Some((vs, r)) => { assert(Seq::<TypVal>::empty() + vs =~= vs); },
        }
    }
    while i < n
        invariant
            pos <= cur <= b@.len(), i <= n,
            dec_items(suffix(b@, pos as int), n as nat) == prepend_items(items_view(out@), dec_items(suffix(b@, cur as int), (n - i) as nat)),
        decreases n - i,
    {
        match dec_value_at(b, cur) {
            None => {
                return None;
            },
            Some((v, q)) => {
                proof {
                    lemma_suffix(b@, cur as int, q - cur);
                    let tail = dec_items(suffix(b@, q as int), (n - i - 1) as nat);
                    assert(dec_items(suffix(b@, cur as int), (n - i) as nat) == prepend_items(seq![v@], tail));
                    lemma_prepend_items(items_view(out@), seq![v@], tail);
                    lemma_items_view_push(out@, v);
                    assert(items_view(out@) + seq![v@] =~= items_view(out@).push(v@));
                }
                out.push(v);
                cur = q;
                i += 1;
            },
        }
    }
    assert(items_view(out@) + Seq::<TypVal>::empty() =~= items_view(out@));
    Some((out, cur))
}

/// `n` map entries read one after another from `pos`, with the position after them.
fn dec_entries_at(b: &[u8], pos: usize, n: u64) -> (r: Option<(Vec<dictitem_T>, usize)>)
    requires pos <= b@.len(),
    ensures
        match dec_entries(suffix(b@, pos as int), n as nat) {
            None => r is None,
            Some((ks, vs, rest)) => r is Some && entry_keys(r->Some_0.0@) == ks && entry_vals(r->Some_0.0@) == vs
                && pos <= r->Some_0.1 <= b@.len() && rest == suffix(b@, r->Some_0.1 as int),
        },
    decreases b@.len() - pos, 1int,
{
    let mut out: Vec<dictitem_T> = Vec::new();
    let mut cur: usize = pos;
    let mut i: u64 = 0;
    assert(entry_keys(out@) =~= Seq::<Seq<u8>>::empty());
    assert(entry_vals(out@) =~= Seq::<TypVal>::empty());
    assert(prepend_entries(Seq::empty(), Seq::empty(), dec_entries(suffix(b@, pos as int), n as nat)) == dec_entries(suffix(b@, pos as int), n as nat)) by {
        match dec_entries(suffix(b@, pos as int), n as nat) {
            None => {},
            Some((ks, vs, r)) => {
                assert(Seq::<Seq<u8>>::empty() + ks =~= ks);
                assert(Seq::<TypVal>::empty() + vs =~= vs);
            },
        }
    }
    while i < n
        invariant
            pos <= cur <= b@.len(), i <= n,
            dec_entries(suffix(b@, pos as int), n as nat)
                == prepend_entries(entry_keys(out@), entry_vals(out@), dec_entries(suffix(b@, cur as int), (n - i) as nat)),
        decreases n - i,
    {
        match dec_key_at(b, cur) {
            None => {
                return None;
            },
            Some((k, q)) => {
                proof { lemma_suffix(b@, cur as int, q - cur); }
                match dec_value_at(b, q) {
                    None => {
                        return None;
                    },
                    Some((v, q2)) => {
                        proof {
                            lemma_suffix(b@, q as int, q2 - q);
                            let tail = dec_entries(suffix(b@, q2 as int), (n - i - 1) as nat);
                            assert(dec_entries(suffix(b@, cur as int), (n - i) as nat) == prepend_entries(seq![k@], seq![v@], tail));
                            lemma_prepend_entries(entry_keys(out@), entry_vals(out@), seq![k@], seq![v@], tail);
                        }
                        let ghost old_out = out@;
                        out.push(dictitem_T { di_key: k, di_tv: v });
                        assert(entry_keys(out@) =~= entry_keys(old_out) + seq![out@.last().di_key@]);
                        assert(entry_vals(out@) =~= entry_vals(old_out) + seq![tv_view(out@.last().di_tv)]);
                        cur = q2;
                        i += 1;
                    },
                }
            },
        }
    }
    assert(entry_keys(out@) + Seq::<Seq<u8>>::empty() =~= entry_keys(out@));
    assert(entry_vals(out@) + Seq::<TypVal>::empty() =~= entry_vals(out@));
    Some((out, cur))
}

// ── msgpackdump() and msgpackparse() ──

/// The bytes `msgpackdump()` writes for a List of values, one after
/// another, or `None` when one of them cannot be dumped.
pub open spec fn dump_spec(items: Seq<TypVal>) -> Option<Seq<u8>> {
    encode_items(items, items.len() as int)
}

/// Index of the last newline in `s`, or -1.
pub open spec fn last_nl(s: Seq<u8>) -> int
    decreases s.len(),
{
    if s.len() == 0 {
        -1
    } else if s.last() == 10u8 {
        s.len() - 1
    } else {
        last_nl(s.drop_last())
    }
}

/// The pieces of `s` between newlines (one piece when there is none).
pub open spec fn split_lines(s: Seq<u8>) -> Seq<Seq<u8>>
    decreases s.len(),
{
    let k = last_nl(s);
    if 0 <= k < s.len() {
        split_lines(s.subrange(0, k)).push(s.subrange(k + 1, s.len() as int))
    } else {
        seq![s]
    }
}

/// The String items of the List form of `msgpackdump()`: the lines of the
/// bytes, none for no bytes.
pub open spec fn line_items(bytes: Seq<u8>) -> Seq<TypVal> {
    if bytes.len() == 0 {
        Seq::empty()
    } else {
        Seq::new(split_lines(bytes).len(), |i: int| str_tv(split_lines(bytes)[i]))
    }
}

/// Whether the type argument of `msgpackdump()` asks for a Blob: there is a
/// second argument and its String holds a "B".
pub open spec fn dump_wants_blob(args: Seq<typval_T>) -> bool {
    args.len() > 1 && string_or_empty(args[1]@).contains(66u8)
}

/// What `msgpackdump()` makes of its arguments: a Blob of the dumped bytes
/// when asked for one, else a List of their lines; an empty List when the
/// first argument is no List or holds a value that cannot be dumped.
pub open spec fn msgpackdump_result(old_rettv: TypVal, args: Seq<typval_T>) -> TypVal {
    match args[0]@.v {
        VVal::List(Some(l)) => match dump_spec(l.items) {
            None => with_list(old_rettv, Seq::empty()),
            Some(bytes) => if dump_wants_blob(args) {
                with_blob(old_rettv, bytes)
            } else {
                with_list(old_rettv, line_items(bytes))
            },
        },
        _ => with_list(old_rettv, Seq::empty()),
    }
}

proof fn lemma_last_nl_range(s: Seq<u8>)
    ensures
        -1 <= last_nl(s) < s.len(),
        last_nl(s) >= 0 ==> s[last_nl(s)] == 10u8,
        forall|j: int| last_nl(s) < j < s.len() ==> s[j] != 10u8,
    decreases s.len(),
{
    if s.len() > 0 && s.last() != 10u8 {
        let d = s.drop_last();
        lemma_last_nl_range(d);
        assert forall|j: int| last_nl(s) < j < s.len() implies s[j] != 10u8 by {
            if j < d.len() { assert(s[j] == d[j]); }
        }
    }
}

proof fn lemma_last_nl_push(s: Seq<u8>, c: u8)
    ensures last_nl(s.push(c)) == if c == 10u8 { s.len() as int } else { last_nl(s) },
{
    assert(s.push(c).drop_last() =~= s);
}

/// Splitting a piece of bytes extended by one more byte.
proof fn lemma_split_lines_push(s: Seq<u8>, c: u8)
    ensures
        split_lines(s.push(c)) == if c == 10u8 {
            split_lines(s).push(Seq::empty())
        } else {
            split_lines(s).update(split_lines(s).len() - 1, split_lines(s).last().push(c))
        },
        split_lines(s).len() >= 1,
    decreases s.len(),
{
    let t = s.push(c);
    lemma_last_nl_push(s, c);
    lemma_last_nl_range(s);
    assert(t.subrange(0, s.len() as int) =~= s);
    if c == 10u8 {
        assert(t.subrange(s.len() as int + 1, t.len() as int) =~= Seq::<u8>::empty());
        let k = last_nl(s);
        if 0 <= k { lemma_split_lines_push(s.subrange(0, k), 10u8); }
    } else {
        let k = last_nl(s);
        if 0 <= k < s.len() {
            assert(t.subrange(0, k) =~= s.subrange(0, k));
            assert(t.subrange(k + 1, t.len() as int) =~= s.subrange(k + 1, s.len() as int).push(c));
            lemma_split_lines_push(s.subrange(0, k), 10u8);
            assert(split_lines(t) =~= split_lines(s).update(split_lines(s).len() - 1, split_lines(s).last().push(c)));
        } else {
            assert(split_lines(t) =~= split_lines(s).update(split_lines(s).len() - 1, split_lines(s).last().push(c)));
        }
    }
}

/// Whether the byte `c` occurs in `s`.
fn bytes_contain(s: &[u8], c: u8) -> (r: bool)
    ensures r == s@.contains(c),
{
    let mut i: usize = 0;
    while i < s.len()
        invariant
            i <= s@.len(),
            forall|j: int| 0 <= j < i ==> s@[j] != c,
        decreases s.len() - i,
    {
        if s[i] == c {
            assert(s@[i as int] == c);
            return true;
        }
        i += 1;
    }
    false
}

/// String values of the given lines.
pub open spec fn str_items(lines: Seq<Seq<u8>>) -> Seq<TypVal> {
    Seq::new(lines.len(), |j: int| str_tv(lines[j]))
}

/// The lines of `bytes` as String values (none for no bytes).
fn lines_of(bytes: &Vec<u8>) -> (r: Vec<typval_T>)
    ensures items_view(r@) == line_items(bytes@),
{
    let mut out: Vec<typval_T> = Vec::new();
    proof { lemma_items_view_empty(); }
    if bytes.len() == 0 {
        return out;
    }
    let mut cur: Vec<u8> = Vec::new();
    let mut i: usize = 0;
    proof {
        let e = bytes@.subrange(0, 0);
        assert(e =~= Seq::<u8>::empty());
        lemma_last_nl_range(e);
        assert(split_lines(e) == seq![e]);
        assert(items_view(out@).push(str_tv(cur@)) =~= str_items(split_lines(e)));
    }
    while i < bytes.len()
        invariant
            i <= bytes@.len(),
            items_view(out@).push(str_tv(cur@)) == str_items(split_lines(bytes@.subrange(0, i as int))),
        decreases bytes.len() - i,
    {
        let ghost pre = bytes@.subrange(0, i as int);
        let ghost sp = split_lines(pre);
        let c = bytes[i];
        proof {
            assert(bytes@.subrange(0, i + 1) =~= pre.push(c));
            lemma_split_lines_push(pre, c);
            assert(str_items(sp).len() == sp.len());
            assert(str_items(sp)[sp.len() - 1] == str_tv(cur@));
            assert(sp.last() == cur@);
        }
        if c == 10u8 {
            let ghost old_out = out@;
            let ghost line = cur@;
            let t = mk_string(cur);
            proof { lemma_items_view_push(old_out, t); }
            out.push(t);
            cur = Vec::new();
            proof {
                assert(str_items(sp.push(Seq::empty())) =~= str_items(sp).push(str_tv(Seq::empty())));
                assert(cur@ =~= Seq::<u8>::empty());
            }
        } else {
            let ghost old_cur = cur@;
            cur.push(c);
            proof {
                assert(str_items(sp.update(sp.len() - 1, sp.last().push(c))) =~= str_items(sp).update(sp.len() - 1, str_tv(old_cur.push(c))));
                assert(items_view(out@).push(str_tv(cur@)) =~= items_view(out@).push(str_tv(old_cur)).update(sp.len() - 1, str_tv(cur@)));
            }
        }
        i += 1;
    }
    assert(bytes@.subrange(0, i as int) =~= bytes@);
    let t = mk_string(cur);
    proof { lemma_items_view_push(out@, t); }
    out.push(t);
    out
}

/// The values read one after another from all of `b`, and whether all of
/// `b` was read.
fn dec_stream_exec(b: &[u8]) -> (r: (Vec<typval_T>, bool))
    ensures items_view(r.0@) == dec_stream(b@).0, r.1 == dec_stream(b@).1,
{
    let mut out: Vec<typval_T> = Vec::new();
    let mut cur: usize = 0;
    let mut failed = false;
    proof { lemma_items_view_empty(); }
    assert(suffix(b@, 0) =~= b@);
    assert(Seq::<TypVal>::empty() + dec_stream(b@).0 =~= dec_stream(b@).0);
    while cur < b.len() && !failed
        invariant
            cur <= b@.len(),
            !failed ==> dec_stream(b@).0 == items_view(out@) + dec_stream(suffix(b@, cur as int)).0,
            !failed ==> dec_stream(b@).1 == dec_stream(suffix(b@, cur as int)).1,
            failed ==> dec_stream(b@).0 == items_view(out@) && !dec_stream(b@).1,
        decreases b.len() - cur + (if failed { 0int } else { 1int }),
    {
        match dec_value_at(b, cur) {
            None => {
                failed = true;
                assert(items_view(out@) + Seq::<TypVal>::empty() =~= items_view(out@));
            },
            Some((v, q)) => {
                proof {
                    lemma_suffix(b@, cur as int, q - cur);
                    lemma_items_view_push(out@, v);
                    let rest = dec_stream(suffix(b@, q as int)).0;
                    assert(items_view(out@) + (seq![v@] + rest) =~= items_view(out@).push(v@) + rest);
                }
                out.push(v);
                cur = q;
            },
        }
    }
    if !failed {
        assert(suffix(b@, cur as int) =~= Seq::<u8>::empty());
        assert(items_view(out@) + Seq::<TypVal>::empty() =~= items_view(out@));
    }
    (out, !failed)
}

/// "msgpackdump({list} [, {type}])": dump the values of `{list}` as
/// MessagePack. Without a "B" in `{type}` the result is a List of the lines
/// of the bytes (split at newlines), with one a Blob of the bytes. When
/// `{list}` is no List or holds a Funcref or another value that cannot be
/// dumped, the result is an empty List.
#[verifier::loop_isolation(false)]
pub fn f_msgpackdump(argvars: &[typval_T], rettv: &mut typval_T)
    requires argvars@.len() >= 1,
    ensures final(rettv)@ == msgpackdump_result(old(rettv)@, argvars@),
{
    let l: &list_T = match &argvars[0].vval {
        typval_vval_union::v_list(Some(l)) => l,
        _ => {
            set_list(rettv, tv_list_alloc(0));
            return;
        },
    };
    let items: &Vec<typval_T> = &l.lv_items;
    proof { lemma_items_view_index_all(items@); }
    let ghost iv = items_view(items@);
    assert(argvars@[0]@.v == VVal::List(Some(l@)));
    assert(l@.items == iv);
    let mut bytes: Vec<u8> = Vec::new();
    let mut i: usize = 0;
    assert(bytes@ =~= encode_items(iv, 0)->Some_0);
    while i < items.len()
        invariant
            i <= items@.len(),
            iv == items_view(items@),
            encode_items(iv, i as int) is Some,
            bytes@ == encode_items(iv, i as int)->Some_0,
            *rettv == *old(rettv),
        decreases items.len() - i,
    {
        let ghost before = bytes@;
        if !mpack_encode_tv(&items[i], &mut bytes) {
            proof { lemma_encode_items_none(iv, i as int + 1, iv.len() as int); }
            set_list(rettv, tv_list_alloc(0));
            return;
        }
        i += 1;
    }
    let want_blob = argvars.len() > 1 && bytes_contain(tv_get_string(&argvars[1]).as_slice(), 66u8);
    if want_blob {
        rettv.v_type = VarType::VAR_BLOB;
        rettv.vval = typval_vval_union::v_blob(Some(blob_T { bv_ga: bytes, bv_lock: VarLockStatus::VAR_UNLOCKED, bv_refcount: 0 }));
    } else {
        let lines = lines_of(&bytes);
        set_list(rettv, list_T { lv_items: lines, lv_lock: VarLockStatus::VAR_UNLOCKED, lv_refcount: 0 });
    }
}

/// The bytes `msgpackparse()` reads from its argument: a Blob's bytes, or the
/// Strings of a List's items joined by newlines; `None` for anything else.
pub open spec fn parse_input(a: TypVal) -> Option<Seq<u8>> {
    match (a.ty, a.v) {
        (VarType::VAR_BLOB, VVal::Blob(b)) => Some(match b { Some(bv) => bv.bytes, None => Seq::empty() }),
        (VarType::VAR_LIST, VVal::List(l)) => Some(match l {
            Some(lv) => join_lines(Seq::new(lv.items.len(), |i: int| string_or_empty(lv.items[i]))),
            None => Seq::empty(),
        }),
        _ => None,
    }
}

/// "msgpackparse({data})": the List of values read from the MessagePack in
/// `{data}` (a Blob, or a List of lines). Reading stops at the first bytes
/// that do not make a value; the values read before them are kept. Anything
/// but a Blob or a List gives an empty List.
pub fn f_msgpackparse(argvars: &[typval_T], rettv: &mut typval_T)
    requires argvars@.len() >= 1,
    ensures
        final(rettv)@ == with_list(old(rettv)@, match parse_input(argvars@[0]@) {
            None => Seq::empty(),
            Some(bytes) => dec_stream(bytes).0,
        }),
{
    let bytes: Vec<u8> = match (&argvars[0].v_type, &argvars[0].vval) {
        (VarType::VAR_BLOB, typval_vval_union::v_blob(b)) => match b {
            Some(bv) => slice_to_vec(bv.bv_ga.as_slice()),
            None => Vec::new(),
        },
        (VarType::VAR_LIST, typval_vval_union::v_list(l)) => match l {
            Some(lv) => {
                proof { lemma_items_view_index_all(lv.lv_items@); }
                let r = join_item_strings(&lv.lv_items);
                assert(Seq::new(lv@.items.len(), |i: int| string_or_empty(lv@.items[i]))
                    =~= Seq::new(lv.lv_items@.len(), |i: int| string_or_empty(lv.lv_items@[i]@)));
                r
            },
            None => Vec::new(),
        },
        _ => {
            set_list(rettv, tv_list_alloc(0));
            return;
        },
    };
    assert(parse_input(argvars@[0]@) == Some(bytes@)) by {
        if bytes@.len() == 0 { assert(bytes@ =~= Seq::<u8>::empty()); }
    }
    let (vals, _complete) = dec_stream_exec(bytes.as_slice());
    set_list(rettv, list_T { lv_items: vals, lv_lock: VarLockStatus::VAR_UNLOCKED, lv_refcount: 0 });
}

/// Append to `ret_list` the values read from the MessagePack in `blob`,
/// up to the first bytes that do not make a value.
pub fn msgpackparse_unpack_blob(blob: &blob_T, ret_list: &mut list_T)
    ensures final(ret_list)@ == with_items(old(ret_list)@, old(ret_list)@.items + dec_stream(blob@.bytes).0),
{
    let (vals, _complete) = dec_stream_exec(blob.bv_ga.as_slice());
    append_items(&mut ret_list.lv_items, vals);
}

/// Whether a List item is a String.
pub open spec fn is_string_item(t: TypVal) -> bool {
    t.ty == VarType::VAR_STRING && t.v is Str
}

/// The bytes of a line read back from a List of lines: each newline in it
/// stands for a NUL byte.
pub open spec fn nl_to_nul(s: Seq<u8>) -> Seq<u8> {
    Seq::new(s.len(), |i: int| if s[i] == 10u8 { 0u8 } else { s[i] })
}

/// The bytes a List of String lines stands for: the lines (newlines in them
/// made NUL bytes) joined by newlines.
pub open spec fn list_stream(items: Seq<TypVal>) -> Seq<u8> {
    join_lines(Seq::new(items.len(), |i: int| nl_to_nul(items[i].v->Str_0)))
}

/// Append to `ret_list` the values read from the MessagePack that `list`,
/// a List of String lines, stands for, up to the first bytes that do not
/// make a value. An empty List, or one with an item that is not a String,
/// adds nothing.
pub fn msgpackparse_unpack_list(list: &list_T, ret_list: &mut list_T)
    ensures
        final(ret_list)@ == if list@.items.len() > 0 && (forall|i: int| 0 <= i < list@.items.len() ==> #[trigger] is_string_item(list@.items[i])) {
            with_items(old(ret_list)@, old(ret_list)@.items + dec_stream(list_stream(list@.items)).0)
        } else {
            old(ret_list)@
        },
{
    proof { lemma_items_view_index_all(list.lv_items@); }
    let ghost iv = list@.items;
    if list.lv_items.len() == 0 {
        return;
    }
    let mut bytes: Vec<u8> = Vec::new();
    let mut i: usize = 0;
    let ghost lines = Seq::new(iv.len(), |k: int| nl_to_nul(iv[k].v->Str_0));
    while i < list.lv_items.len()
        invariant
            i <= list.lv_items@.len(), iv == list@.items, iv.len() == list.lv_items@.len(),
            lines == Seq::new(iv.len(), |k: int| nl_to_nul(iv[k].v->Str_0)),
            forall|k: int| 0 <= k < i ==> #[trigger] is_string_item(iv[k]),
            bytes@ == join_lines(lines.subrange(0, i as int)),
        decreases list.lv_items.len() - i,
    {
        let s: &Vec<u8> = match (&list.lv_items[i].v_type, &list.lv_items[i].vval) {
            (VarType::VAR_STRING, typval_vval_union::v_string(s)) => s,
            _ => {
                assert(!is_string_item(iv[i as int]));
                return;
            },
        };
        if i > 0 {
            bytes.push(10u8);
        }
        let mut j: usize = 0;
        let ghost start = bytes@;
        while j < s.len()
            invariant
                j <= s@.len(),
                bytes@ == start + nl_to_nul(s@).subrange(0, j as int),
            decreases s.len() - j,
        {
            let c = s[j];
            bytes.push(if c == 10u8 { 0u8 } else { c });
            assert(nl_to_nul(s@).subrange(0, j + 1) =~= nl_to_nul(s@).subrange(0, j as int).push(if c == 10u8 { 0u8 } else { c }));
            j += 1;
        }
        proof {
            assert(nl_to_nul(s@).subrange(0, j as int) =~= nl_to_nul(s@));
            assert(lines[i as int] == nl_to_nul(s@));
            let sub = lines.subrange(0, i + 1);
            assert(sub.drop_last() =~= lines.subrange(0, i as int));
            if i == 0 {
                assert(join_lines(lines.subrange(0, 0)) =~= Seq::<u8>::empty());
                assert(bytes@ =~= join_lines(sub));
            } else {
                assert(bytes@ =~= join_lines(sub));
            }
        }
        i += 1;
    }
    assert(lines.subrange(0, i as int) =~= lines);
    let (vals, _complete) = dec_stream_exec(bytes.as_slice());
    append_items(&mut ret_list.lv_items, vals);
}

/// The message for a failed MessagePack operation (`status` other than 0).
pub fn emsg_mpack_error(status: i32) -> (r: Option<Vec<u8>>)
    ensures
        r is Some <==> status != 0,
        r is Some ==> r->Some_0@ == mpack_error_msg(),
{
    if status != 0 {
        let m: Vec<u8> = vec![69u8, 53, 48, 48, 52, 58, 32, 69, 114, 114, 111, 114, 32, 119, 104, 105, 108, 101, 32,
            100, 117, 109, 112, 105, 110, 103, 32, 111, 114, 32, 112, 97, 114, 115, 105, 110, 103, 32,
            109, 115, 103, 112, 97, 99, 107];
        assert(m@ =~= mpack_error_msg());
        Some(m)
    } else {
        None
    }
}

/// `E5004: Error while dumping or parsing msgpack`.
pub open spec fn mpack_error_msg() -> Seq<u8> {
    seq![69u8, 53, 48, 48, 52, 58, 32, 69, 114, 114, 111, 114, 32, 119, 104, 105, 108, 101, 32,
        100, 117, 109, 112, 105, 110, 103, 32, 111, 114, 32, 112, 97, 114, 115, 105, 110, 103, 32,
        109, 115, 103, 112, 97, 99, 107]
}

// ── reading back what was written ──

/// A value that `msgpackdump()` writes and `msgpackparse()` reads back:
/// no Funcref, Partial or unknown value anywhere in it, Numbers of 64 bits,
/// no String, Blob, List, Dict or key of 2^32 or more items or bytes, and no
/// key twice in a Dict.
pub open spec fn dumpable(t: TypVal) -> bool
    decreases t,
{
    match (t.ty, t.v) {
        (VarType::VAR_SPECIAL, _) => true,
        (VarType::VAR_BOOL, VVal::Bool(_)) => true,
        (VarType::VAR_NUMBER, VVal::Number(n)) => i64::MIN <= n <= i64::MAX,
        (VarType::VAR_FLOAT, VVal::Float(_)) => true,
        (VarType::VAR_STRING, VVal::Str(s)) => s.len() <= 0xffff_ffff,
        (VarType::VAR_BLOB, VVal::Blob(b)) => match b {
            None => true,
            Some(bv) => bv.bytes.len() <= 0xffff_ffff,
        },
        (VarType::VAR_LIST, VVal::List(l)) => match l {
            None => true,
            Some(lv) => lv.items.len() <= 0xffff_ffff
                && forall|i: int| 0 <= i < lv.items.len() ==> dumpable(#[trigger] lv.items[i]),
        },
        (VarType::VAR_DICT, VVal::Dict(d)) => match d {
            None => true,
            Some(dv) => dv.vals.len() <= 0xffff_ffff && dv.keys.len() == dv.vals.len() && keys_unique(dv.keys)
                && (forall|i: int| 0 <= i < dv.keys.len() ==> (#[trigger] dv.keys[i]).len() <= 0xffff_ffff)
                && forall|i: int| 0 <= i < dv.vals.len() ==> dumpable(#[trigger] dv.vals[i]),
        },
        _ => false,
    }
}

/// The value `msgpackparse()` reads back from what `msgpackdump()` wrote for
/// `t`: `v:null` for every special value, a Blob for a String, new unlocked
/// Lists and Dicts of what their items read back as, and other values as
/// they were (unlocked).
pub open spec fn reparsed(t: TypVal) -> TypVal
    decreases t,
{
    match (t.ty, t.v) {
        (VarType::VAR_SPECIAL, _) => null_tv(),
        (VarType::VAR_BOOL, VVal::Bool(b)) => bool_tv(b == BoolVarValue::kBoolVarTrue),
        (VarType::VAR_NUMBER, VVal::Number(n)) => num_tv(n),
        (VarType::VAR_FLOAT, VVal::Float(f)) => float_tv(f as nat),
        (VarType::VAR_STRING, VVal::Str(s)) => blob_tv(s),
        (VarType::VAR_BLOB, VVal::Blob(b)) => blob_tv(match b { Some(bv) => bv.bytes, None => Seq::empty() }),
        (VarType::VAR_LIST, VVal::List(l)) => list_tv(match l {
            Some(lv) => Seq::new(lv.items.len(), |i: int| if 0 <= i < lv.items.len() { reparsed(lv.items[i]) } else { t }),
            None => Seq::empty(),
        }),
        (VarType::VAR_DICT, VVal::Dict(d)) => match d {
            Some(dv) => dict_tv(DictVal {
                keys: dv.keys,
                vals: Seq::new(dv.vals.len(), |i: int| if 0 <= i < dv.vals.len() { reparsed(dv.vals[i]) } else { t }),
                ..empty_dict_val()
            }),
            None => dict_tv(empty_dict_val()),
        },
        _ => t,
    }
}

/// What each of `s` reads back as.
pub open spec fn reparsed_items(s: Seq<TypVal>) -> Seq<TypVal> {
    Seq::new(s.len(), |i: int| reparsed(s[i]))
}

proof fn lemma_take_be_written(n: nat, w: nat, rest: Seq<u8>)
    ensures take_be(be_bytes(n, w) + rest, w) == Some((n % pow256(w), rest)),
{
    lemma_be_bytes_len(n, w);
    let s = be_bytes(n, w) + rest;
    assert(s.subrange(0, w as int) =~= be_bytes(n, w));
    assert(suffix(s, w as int) =~= rest);
    lemma_from_be_bytes(n, w);
}

proof fn lemma_small_be(n: nat, w: nat, rest: Seq<u8>)
    requires n < pow256(w),
    ensures take_be(be_bytes(n, w) + rest, w) == Some((n, rest)),
{
    lemma_take_be_written(n, w, rest);
    vstd::arithmetic::div_mod::lemma_small_mod(n, pow256(w));
}

proof fn lemma_one_byte(n: nat)
    requires n < 256,
    ensures seq![n as u8] == be_bytes(n, 1),
{
    reveal_with_fuel(be_bytes, 2);
    vstd::arithmetic::div_mod::lemma_small_mod(n, 256);
    assert(seq![n as u8] =~= be_bytes(n, 1));
}

/// A tag byte and bytes after it, as `dec_value` sees them.
proof fn lemma_tagged(tag: u8, more: Seq<u8>)
    ensures
        (seq![tag] + more).len() > 0,
        (seq![tag] + more)[0] == tag,
        suffix(seq![tag] + more, 1) == more,
{
    assert(suffix(seq![tag] + more, 1) =~= more);
}

proof fn lemma_int_roundtrip(n: int, rest: Seq<u8>)
    requires i64::MIN <= n <= i64::MAX,
    ensures
        pack_int_spec(n).len() >= 1,
        dec_value(pack_int_spec(n) + rest) == Some((num_tv(n), rest)),
{
    lemma_pow256_values();
    let e = pack_int_spec(n);
    if n >= 0 && n < 0x80 {
        lemma_tagged(n as u8, rest);
        assert(e + rest =~= seq![n as u8] + rest);
    } else if n >= 0 && n <= 0xff {
        lemma_one_byte(n as nat);
        lemma_small_be(n as nat, 1, rest);
        lemma_tagged(0xccu8, be_bytes(n as nat, 1) + rest);
        assert(e + rest =~= seq![0xccu8] + (be_bytes(n as nat, 1) + rest));
    } else if n >= 0 && n <= 0xffff {
        lemma_small_be(n as nat, 2, rest);
        lemma_tagged(0xcdu8, be_bytes(n as nat, 2) + rest);
        assert(e + rest =~= seq![0xcdu8] + (be_bytes(n as nat, 2) + rest));
    } else if n >= 0 && n <= 0xffff_ffff {
        lemma_small_be(n as nat, 4, rest);
        lemma_tagged(0xceu8, be_bytes(n as nat, 4) + rest);
        assert(e + rest =~= seq![0xceu8] + (be_bytes(n as nat, 4) + rest));
    } else if n >= 0 {
        lemma_small_be(n as nat, 8, rest);
        lemma_tagged(0xcfu8, be_bytes(n as nat, 8) + rest);
        assert(e + rest =~= seq![0xcfu8] + (be_bytes(n as nat, 8) + rest));
    } else if n >= -32 {
        lemma_tagged((n + 256) as u8, rest);
        assert(e + rest =~= seq![(n + 256) as u8] + rest);
    } else if n >= -128 {
        lemma_one_byte((n + 256) as nat);
        lemma_small_be((n + 256) as nat, 1, rest);
        lemma_tagged(0xd0u8, be_bytes((n + 256) as nat, 1) + rest);
        assert(e + rest =~= seq![0xd0u8] + (be_bytes((n + 256) as nat, 1) + rest));
    } else if n >= -32768 {
        lemma_take_be_written(twos64(n), 2, rest);
        vstd::arithmetic::div_mod::lemma_fundamental_div_mod_converse(twos64(n) as int, 0x1_0000, 0xffff_ffff_ffff, n + 0x1_0000);
        lemma_tagged(0xd1u8, be_bytes(twos64(n), 2) + rest);
        assert(e + rest =~= seq![0xd1u8] + (be_bytes(twos64(n), 2) + rest));
    } else if n >= -0x8000_0000 {
        lemma_take_be_written(twos64(n), 4, rest);
        vstd::arithmetic::div_mod::lemma_fundamental_div_mod_converse(twos64(n) as int, 0x1_0000_0000, 0xffff_ffff, n + 0x1_0000_0000);
        lemma_tagged(0xd2u8, be_bytes(twos64(n), 4) + rest);
        assert(e + rest =~= seq![0xd2u8] + (be_bytes(twos64(n), 4) + rest));
    } else {
        lemma_take_be_written(twos64(n), 8, rest);
        vstd::arithmetic::div_mod::lemma_small_mod(twos64(n), pow256(8));
        lemma_tagged(0xd3u8, be_bytes(twos64(n), 8) + rest);
        assert(e + rest =~= seq![0xd3u8] + (be_bytes(twos64(n), 8) + rest));
    }
}

proof fn lemma_take_bytes_written(s: Seq<u8>, rest: Seq<u8>)
    ensures take_bytes(s + rest, s.len()) == Some((s, rest)),
{
    assert((s + rest).subrange(0, s.len() as int) =~= s);
    assert(suffix(s + rest, s.len() as int) =~= rest);
}

/// A length written in `w` bytes, then the bytes, read back.
proof fn lemma_sized_written(s: Seq<u8>, w: nat, rest: Seq<u8>)
    requires s.len() < pow256(w),
    ensures take_sized(be_bytes(s.len(), w) + (s + rest), w) == Some((s, rest)),
{
    lemma_small_be(s.len(), w, s + rest);
    lemma_take_bytes_written(s, rest);
}

proof fn lemma_bin_roundtrip(s: Seq<u8>, rest: Seq<u8>)
    requires s.len() <= 0xffff_ffff,
    ensures
        (bin_header(s.len()) + s).len() >= 1,
        dec_value((bin_header(s.len()) + s) + rest) == Some((blob_tv(s), rest)),
{
    lemma_pow256_values();
    let n = s.len();
    let tag: u8 = if n <= 0xff { 0xc4 } else if n <= 0xffff { 0xc5 } else { 0xc6 };
    let w: nat = if n <= 0xff { 1 } else if n <= 0xffff { 2 } else { 4 };
    if n <= 0xff { lemma_one_byte(n); }
    assert(bin_header(n) == seq![tag] + be_bytes(n, w));
    lemma_sized_written(s, w, rest);
    lemma_tagged(tag, be_bytes(n, w) + (s + rest));
    assert((bin_header(n) + s) + rest =~= seq![tag] + (be_bytes(n, w) + (s + rest)));
}

proof fn lemma_key_roundtrip(k: Seq<u8>, rest: Seq<u8>)
    requires k.len() <= 0xffff_ffff,
    ensures
        (str_header(k.len()) + k).len() >= 1,
        dec_key((str_header(k.len()) + k) + rest) == Some((k, rest)),
{
    lemma_pow256_values();
    let n = k.len();
    if n < 32 {
        lemma_tagged((0xa0 + n) as u8, k + rest);
        lemma_take_bytes_written(k, rest);
        assert((str_header(n) + k) + rest =~= seq![(0xa0 + n) as u8] + (k + rest));
    } else {
        let tag: u8 = if n <= 0xff { 0xd9 } else if n <= 0xffff { 0xda } else { 0xdb };
        let w: nat = if n <= 0xff { 1 } else if n <= 0xffff { 2 } else { 4 };
        if n <= 0xff { lemma_one_byte(n); }
        assert(str_header(n) == seq![tag] + be_bytes(n, w));
        lemma_sized_written(k, w, rest);
        lemma_tagged(tag, be_bytes(n, w) + (k + rest));
        assert((str_header(n) + k) + rest =~= seq![tag] + (be_bytes(n, w) + (k + rest)));
    }
}

proof fn lemma_array_header(n: nat, more: Seq<u8>)
    requires n <= 0xffff_ffff,
    ensures
        array_header(n).len() >= 1,
        is_array_tag((array_header(n) + more)[0]),
        container_count((array_header(n) + more)[0], suffix(array_header(n) + more, 1), 0x90, 0xdc, 0xdd) == Some((n, more)),
{
    lemma_pow256_values();
    if n < 16 {
        lemma_tagged((0x90 + n) as u8, more);
        assert(array_header(n) + more =~= seq![(0x90 + n) as u8] + more);
    } else {
        let tag: u8 = if n <= 0xffff { 0xdc } else { 0xdd };
        let w: nat = if n <= 0xffff { 2 } else { 4 };
        lemma_small_be(n, w, more);
        lemma_tagged(tag, be_bytes(n, w) + more);
        assert(array_header(n) + more =~= seq![tag] + (be_bytes(n, w) + more));
    }
}

proof fn lemma_map_header(n: nat, more: Seq<u8>)
    requires n <= 0xffff_ffff,
    ensures
        map_header(n).len() >= 1,
        !is_array_tag((map_header(n) + more)[0]),
        is_map_tag((map_header(n) + more)[0]),
        container_count((map_header(n) + more)[0], suffix(map_header(n) + more, 1), 0x80, 0xde, 0xdf) == Some((n, more)),
{
    lemma_pow256_values();
    if n < 16 {
        lemma_tagged((0x80 + n) as u8, more);
        assert(map_header(n) + more =~= seq![(0x80 + n) as u8] + more);
    } else {
        let tag: u8 = if n <= 0xffff { 0xde } else { 0xdf };
        let w: nat = if n <= 0xffff { 2 } else { 4 };
        lemma_small_be(n, w, more);
        lemma_tagged(tag, be_bytes(n, w) + more);
        assert(map_header(n) + more =~= seq![tag] + (be_bytes(n, w) + more));
    }
}

/// The encodings of items, split after the first one.
proof fn lemma_encode_items_cons(s: Seq<TypVal>, n: int)
    requires
        1 <= n <= s.len(),
        forall|i: int| 0 <= i < n ==> #[trigger] encode_spec(s[i]) is Some,
    ensures
        encode_items(s, n) is Some,
        encode_items(s.subrange(1, s.len() as int), n - 1) is Some,
        encode_items(s, n)->Some_0 == encode_spec(s[0])->Some_0 + encode_items(s.subrange(1, s.len() as int), n - 1)->Some_0,
    decreases n,
{
    let s1 = s.subrange(1, s.len() as int);
    if n == 1 {
        assert(Seq::<u8>::empty() + encode_spec(s[0])->Some_0 =~= encode_spec(s[0])->Some_0 + Seq::<u8>::empty());
    } else {
        lemma_encode_items_cons(s, n - 1);
        assert(s1[n - 2] == s[n - 1]);
        let a = encode_spec(s[0])->Some_0;
        let m = encode_items(s1, n - 2)->Some_0;
        let z = encode_spec(s[n - 1])->Some_0;
        assert((a + m) + z =~= a + (m + z));
    }
}

/// The encodings of map entries, split after the first one.
proof fn lemma_encode_pairs_cons(keys: Seq<Seq<u8>>, vals: Seq<TypVal>, n: int)
    requires
        1 <= n <= vals.len(), keys.len() == vals.len(),
        forall|i: int| 0 <= i < n ==> #[trigger] encode_spec(vals[i]) is Some,
    ensures
        encode_pairs(keys, vals, n) is Some,
        encode_pairs(keys.subrange(1, keys.len() as int), vals.subrange(1, vals.len() as int), n - 1) is Some,
        encode_pairs(keys, vals, n)->Some_0
            == ((str_header(keys[0].len()) + keys[0]) + encode_spec(vals[0])->Some_0)
                + encode_pairs(keys.subrange(1, keys.len() as int), vals.subrange(1, vals.len() as int), n - 1)->Some_0,
    decreases n,
{
    let k1 = keys.subrange(1, keys.len() as int);
    let v1 = vals.subrange(1, vals.len() as int);
    let h = str_header(keys[0].len()) + keys[0];
    if n == 1 {
        let e = encode_spec(vals[0])->Some_0;
        assert(Seq::<u8>::empty() + h + e =~= (h + e) + Seq::<u8>::empty());
    } else {
        lemma_encode_pairs_cons(keys, vals, n - 1);
        assert(v1[n - 2] == vals[n - 1]);
        assert(k1[n - 2] == keys[n - 1]);
        let a = h + encode_spec(vals[0])->Some_0;
        let m = encode_pairs(k1, v1, n - 2)->Some_0;
        let hz = str_header(keys[n - 1].len()) + keys[n - 1];
        let z = encode_spec(vals[n - 1])->Some_0;
        assert(((a + m) + hz) + z =~= a + ((m + hz) + z));
    }
}

proof fn lemma_scalar_roundtrip(t: TypVal, rest: Seq<u8>)
    requires dumpable(t), t.ty != VarType::VAR_LIST, t.ty != VarType::VAR_DICT,
    ensures
        encode_spec(t) is Some,
        encode_spec(t)->Some_0.len() >= 1,
        dec_value(encode_spec(t)->Some_0 + rest) == Some((reparsed(t), rest)),
{
    match (t.ty, t.v) {
        (VarType::VAR_SPECIAL, _) => {
            lemma_tagged(0xc0u8, rest);
        },
        (VarType::VAR_BOOL, VVal::Bool(b)) => {
            let tag: u8 = if b == BoolVarValue::kBoolVarTrue { 0xc3 } else { 0xc2 };
            lemma_tagged(tag, rest);
        },
        (VarType::VAR_NUMBER, VVal::Number(n)) => {
            lemma_int_roundtrip(n, rest);
        },
        (VarType::VAR_FLOAT, VVal::Float(f)) => {
            lemma_pow256_values();
            lemma_small_be(f as nat, 8, rest);
            lemma_tagged(0xcbu8, be_bytes(f as nat, 8) + rest);
            assert((seq![0xcbu8] + be_bytes(f as nat, 8)) + rest =~= seq![0xcbu8] + (be_bytes(f as nat, 8) + rest));
        },
        (VarType::VAR_STRING, VVal::Str(s)) => {
            lemma_bin_roundtrip(s, rest);
        },
        (VarType::VAR_BLOB, VVal::Blob(b)) => {
            match b {
                Some(bv) => { lemma_bin_roundtrip(bv.bytes, rest); },
                None => {
                    lemma_bin_roundtrip(Seq::empty(), rest);
                    assert(bin_header(0) + Seq::<u8>::empty() =~= bin_header(0));
                },
            }
        },
        _ => {},
    }
}

proof fn lemma_array_of(s: Seq<TypVal>, body: Seq<u8>, rest: Seq<u8>)
    requires
        s.len() <= 0xffff_ffff,
        dec_items(body + rest, s.len()) == Some((reparsed_items(s), rest)),
    ensures
        dec_value((array_header(s.len()) + body) + rest) == Some((list_tv(reparsed_items(s)), rest)),
{
    lemma_array_header(s.len(), body + rest);
    assert((array_header(s.len()) + body) + rest =~= array_header(s.len()) + (body + rest));
}

proof fn lemma_map_of(keys: Seq<Seq<u8>>, vals: Seq<TypVal>, body: Seq<u8>, rest: Seq<u8>)
    requires
        vals.len() <= 0xffff_ffff,
        keys_unique(keys),
        dec_entries(body + rest, vals.len()) == Some((keys, reparsed_items(vals), rest)),
    ensures
        dec_value((map_header(vals.len()) + body) + rest)
            == Some((dict_tv(DictVal { keys: keys, vals: reparsed_items(vals), ..empty_dict_val() }), rest)),
{
    lemma_map_header(vals.len(), body + rest);
    assert((map_header(vals.len()) + body) + rest =~= map_header(vals.len()) + (body + rest));
}

/// What `msgpackdump()` writes for a value reads back, whatever follows it,
/// as the value's `reparsed` form.
#[verifier::rlimit(60)]
pub proof fn lemma_value_roundtrip(t: TypVal, rest: Seq<u8>)
    requires dumpable(t),
    ensures
        encode_spec(t) is Some,
        encode_spec(t)->Some_0.len() >= 1,
        dec_value(encode_spec(t)->Some_0 + rest) == Some((reparsed(t), rest)),
    decreases t,
{
    if t.ty == VarType::VAR_LIST && t.v is List {
        match t.v->List_0 {
            None => {
                lemma_array_header(0, rest);
                assert(Seq::<u8>::empty() + rest =~= rest);
                assert(array_header(0) + Seq::<u8>::empty() =~= array_header(0));
                assert(reparsed_items(Seq::<TypVal>::empty()) =~= Seq::<TypVal>::empty());
                lemma_array_of(Seq::empty(), Seq::empty(), rest);
                assert(encode_spec(t) == Some(array_header(0)));
                assert(reparsed(t) == list_tv(Seq::empty()));
            },
            Some(lv) => {
                let s = lv.items;
                assert forall|i: int| 0 <= i < s.len() implies dumpable(#[trigger] s[i]) by {}
                lemma_items_roundtrip(s, rest);
                let body = encode_items(s, s.len() as int)->Some_0;
                lemma_array_header(s.len(), body);
                lemma_array_of(s, body, rest);
                assert(reparsed(t).v->List_0->Some_0.items =~= reparsed_items(s));
                assert(encode_spec(t) == Some(array_header(s.len()) + body));
                assert(reparsed(t) == list_tv(reparsed_items(s)));
            },
        }
    } else if t.ty == VarType::VAR_DICT && t.v is Dict {
        match t.v->Dict_0 {
            None => {
                lemma_map_header(0, rest);
                assert(Seq::<u8>::empty() + rest =~= rest);
                assert(map_header(0) + Seq::<u8>::empty() =~= map_header(0));
                assert(reparsed_items(Seq::<TypVal>::empty()) =~= Seq::<TypVal>::empty());
                assert(keys_unique(Seq::<Seq<u8>>::empty()));
                lemma_map_of(Seq::empty(), Seq::empty(), Seq::empty(), rest);
                assert(encode_spec(t) == Some(map_header(0)));
                assert(reparsed(t) == dict_tv(empty_dict_val()));
                assert(DictVal { keys: Seq::<Seq<u8>>::empty(), vals: Seq::<TypVal>::empty(), ..empty_dict_val() } == empty_dict_val());
            },
            Some(dv) => {
                assert forall|i: int| 0 <= i < dv.vals.len() implies dumpable(#[trigger] dv.vals[i]) by {}
                assert forall|i: int| 0 <= i < dv.keys.len() implies (#[trigger] dv.keys[i]).len() <= 0xffff_ffff by {}
                lemma_pairs_roundtrip(dv.keys, dv.vals, rest);
                let body = encode_pairs(dv.keys, dv.vals, dv.vals.len() as int)->Some_0;
                lemma_map_header(dv.vals.len(), body);
                lemma_map_of(dv.keys, dv.vals, body, rest);
                assert(reparsed(t).v->Dict_0->Some_0.vals =~= reparsed_items(dv.vals));
                assert(encode_spec(t) == Some(map_header(dv.vals.len()) + body));
                assert(reparsed(t) == dict_tv(DictVal { keys: dv.keys, vals: reparsed_items(dv.vals), ..empty_dict_val() }));
            },
        }
    } else {
        lemma_scalar_roundtrip(t, rest);
    }
}

/// What `msgpackdump()` writes for several values reads back, whatever
/// follows, as their `reparsed` forms.
pub proof fn lemma_items_roundtrip(s: Seq<TypVal>, rest: Seq<u8>)
    requires forall|i: int| 0 <= i < s.len() ==> dumpable(#[trigger] s[i]),
    ensures
        encode_items(s, s.len() as int) is Some,
        dec_items(encode_items(s, s.len() as int)->Some_0 + rest, s.len()) == Some((reparsed_items(s), rest)),
    decreases s,
{
    if s.len() == 0 {
        assert(Seq::<u8>::empty() + rest =~= rest);
        assert(reparsed_items(s) =~= Seq::<TypVal>::empty());
    } else {
        let s1 = s.subrange(1, s.len() as int);
        assert forall|i: int| 0 <= i < s.len() implies #[trigger] encode_spec(s[i]) is Some by {
            lemma_value_roundtrip(s[i], rest);
        }
        lemma_encode_items_cons(s, s.len() as int);
        let e0 = encode_spec(s[0])->Some_0;
        let e1 = encode_items(s1, s1.len() as int)->Some_0;
        assert forall|i: int| 0 <= i < s1.len() implies dumpable(#[trigger] s1[i]) by {
            assert(s1[i] == s[i + 1]);
        }
        lemma_value_roundtrip(s[0], e1 + rest);
        lemma_items_roundtrip(s1, rest);
        assert((e0 + e1) + rest =~= e0 + (e1 + rest));
        assert(seq![reparsed(s[0])] + reparsed_items(s1) =~= reparsed_items(s));
    }
}

proof fn lemma_entries_step(
    k: Seq<u8>, e: Seq<u8>, v: TypVal, more: Seq<u8>, n: nat,
    ks: Seq<Seq<u8>>, vs: Seq<TypVal>, rest: Seq<u8>,
)
    requires
        n >= 1, k.len() <= 0xffff_ffff, e.len() >= 1,
        dec_value(e + more) == Some((v, more)),
        dec_entries(more, (n - 1) as nat) == Some((ks, vs, rest)),
    ensures
        dec_entries((str_header(k.len()) + k) + (e + more), n) == Some((seq![k] + ks, seq![v] + vs, rest)),
{
    lemma_key_roundtrip(k, e + more);
}

/// What `msgpackdump()` writes for the entries of a Dict reads back,
/// whatever follows, as its keys and the `reparsed` forms of its values.
#[verifier::rlimit(60)]
pub proof fn lemma_pairs_roundtrip(keys: Seq<Seq<u8>>, vals: Seq<TypVal>, rest: Seq<u8>)
    requires
        keys.len() == vals.len(),
        forall|i: int| 0 <= i < keys.len() ==> (#[trigger] keys[i]).len() <= 0xffff_ffff,
        forall|i: int| 0 <= i < vals.len() ==> dumpable(#[trigger] vals[i]),
    ensures
        encode_pairs(keys, vals, vals.len() as int) is Some,
        dec_entries(encode_pairs(keys, vals, vals.len() as int)->Some_0 + rest, vals.len())
            == Some((keys, reparsed_items(vals), rest)),
    decreases vals,
{
    if vals.len() == 0 {
        assert(Seq::<u8>::empty() + rest =~= rest);
        assert(reparsed_items(vals) =~= Seq::<TypVal>::empty());
        assert(keys =~= Seq::<Seq<u8>>::empty());
    } else {
        let k1 = keys.subrange(1, keys.len() as int);
        let v1 = vals.subrange(1, vals.len() as int);
        assert forall|i: int| 0 <= i < vals.len() implies #[trigger] encode_spec(vals[i]) is Some by {
            lemma_value_roundtrip(vals[i], rest);
        }
        lemma_encode_pairs_cons(keys, vals, vals.len() as int);
        let h = str_header(keys[0].len()) + keys[0];
        let e0 = encode_spec(vals[0])->Some_0;
        let e1 = encode_pairs(k1, v1, v1.len() as int)->Some_0;
        assert forall|i: int| 0 <= i < v1.len() implies dumpable(#[trigger] v1[i]) by {
            assert(v1[i] == vals[i + 1]);
        }
        assert forall|i: int| 0 <= i < k1.len() implies (#[trigger] k1[i]).len() <= 0xffff_ffff by {
            assert(k1[i] == keys[i + 1]);
        }
        lemma_value_roundtrip(vals[0], e1 + rest);
        lemma_pairs_roundtrip(k1, v1, rest);
        lemma_entries_step(keys[0], e0, reparsed(vals[0]), e1 + rest, vals.len(), k1, reparsed_items(v1), rest);
        assert(((h + e0) + e1) + rest =~= h + (e0 + (e1 + rest)));
        assert(seq![keys[0]] + k1 =~= keys);
        assert(seq![reparsed(vals[0])] + reparsed_items(v1) =~= reparsed_items(vals));
    }
}

/// What `msgpackdump()` writes for a List of values reads back, in full, as
/// their `reparsed` forms.
pub proof fn lemma_stream_roundtrip(s: Seq<TypVal>)
    requires forall|i: int| 0 <= i < s.len() ==> dumpable(#[trigger] s[i]),
    ensures
        dump_spec(s) is Some,
        dump_spec(s)->Some_0.len() >= s.len(),
        dec_stream(dump_spec(s)->Some_0) == (reparsed_items(s), true),
    decreases s.len(),
{
    if s.len() == 0 {
        assert(reparsed_items(s) =~= Seq::<TypVal>::empty());
    } else {
        let s1 = s.subrange(1, s.len() as int);
        assert forall|i: int| 0 <= i < s.len() implies #[trigger] encode_spec(s[i]) is Some by {
            lemma_value_roundtrip(s[i], Seq::empty());
        }
        lemma_encode_items_cons(s, s.len() as int);
        assert forall|i: int| 0 <= i < s1.len() implies dumpable(#[trigger] s1[i]) by {
            assert(s1[i] == s[i + 1]);
        }
        lemma_stream_roundtrip(s1);
        let e0 = encode_spec(s[0])->Some_0;
        let e1 = dump_spec(s1)->Some_0;
        lemma_value_roundtrip(s[0], e1);
        assert(seq![reparsed(s[0])] + reparsed_items(s1) =~= reparsed_items(s));
    }
}

/// Joining the lines of bytes by newlines gives the bytes back.
pub proof fn lemma_join_split_lines(s: Seq<u8>)
    ensures
        join_lines(split_lines(s)) == s,
        split_lines(s).len() >= 1,
        forall|i: int| 0 <= i < split_lines(s).len() ==> !(#[trigger] split_lines(s)[i]).contains(10u8),
    decreases s.len(),
{
    lemma_last_nl_range(s);
    let k = last_nl(s);
    if 0 <= k {
        let a = s.subrange(0, k);
        let y = s.subrange(k + 1, s.len() as int);
        lemma_join_split_lines(a);
        let x = split_lines(a);
        assert(split_lines(s) == x.push(y));
        assert(x.push(y).drop_last() =~= x);
        assert(a + seq![10u8] + y =~= s);
        assert forall|i: int| 0 <= i < split_lines(s).len() implies !(#[trigger] split_lines(s)[i]).contains(10u8) by {
            if i == x.len() {
                assert forall|j: int| 0 <= j < y.len() implies y[j] != 10u8 by {
                    assert(y[j] == s[k + 1 + j]);
                }
            } else {
                assert(split_lines(s)[i] == x[i]);
            }
        }
    } else {
        assert forall|j: int| 0 <= j < s.len() implies s[j] != 10u8 by {}
    }
}

/// `msgpackparse()` of what `msgpackdump()` returned for a List of values,
/// the Blob or the List of lines, gives back those values in their
/// `reparsed` forms.
pub proof fn lemma_msgpackparse_of_msgpackdump(old_rettv: TypVal, args: Seq<typval_T>)
    requires
        args.len() >= 1,
        args[0]@.v is List,
        args[0]@.v->List_0 is Some,
        forall|i: int| 0 <= i < args[0]@.v->List_0->Some_0.items.len()
            ==> dumpable(#[trigger] args[0]@.v->List_0->Some_0.items[i]),
    ensures
        parse_input(msgpackdump_result(old_rettv, args)) is Some,
        dec_stream(parse_input(msgpackdump_result(old_rettv, args))->Some_0).0
            == reparsed_items(args[0]@.v->List_0->Some_0.items),
{
    let items = args[0]@.v->List_0->Some_0.items;
    lemma_stream_roundtrip(items);
    let bytes = dump_spec(items)->Some_0;
    if !dump_wants_blob(args) {
        let li = line_items(bytes);
        let joined = Seq::new(li.len(), |i: int| string_or_empty(li[i]));
        if bytes.len() == 0 {
            assert(joined =~= Seq::<Seq<u8>>::empty());
            assert(bytes =~= Seq::<u8>::empty());
        } else {
            lemma_join_split_lines(bytes);
            assert(joined =~= split_lines(bytes));
        }
        assert(parse_input(msgpackdump_result(old_rettv, args)) == Some(join_lines(joined)));
    }
}

/// `msgpackparse_unpack_list()` of the lines `msgpackdump()` wrote for a
/// non-empty List of values appends those values in their `reparsed` forms:
/// the lines are all Strings, and none of them holds a newline.
pub proof fn lemma_unpack_list_of_dump(items: Seq<TypVal>)
    requires
        items.len() > 0,
        forall|i: int| 0 <= i < items.len() ==> dumpable(#[trigger] items[i]),
    ensures
        dump_spec(items) is Some,
        line_items(dump_spec(items)->Some_0).len() > 0,
        forall|i: int| 0 <= i < line_items(dump_spec(items)->Some_0).len()
            ==> #[trigger] is_string_item(line_items(dump_spec(items)->Some_0)[i]),
        dec_stream(list_stream(line_items(dump_spec(items)->Some_0))).0 == reparsed_items(items),
{
    lemma_stream_roundtrip(items);
    let bytes = dump_spec(items)->Some_0;
    lemma_join_split_lines(bytes);
    let sp = split_lines(bytes);
    let li = line_items(bytes);
    let lines = Seq::new(li.len(), |i: int| nl_to_nul(li[i].v->Str_0));
    assert forall|i: int| 0 <= i < li.len() implies #[trigger] is_string_item(li[i]) by {}
    assert forall|i: int| 0 <= i < lines.len() implies #[trigger] lines[i] == sp[i] by {
        assert(!sp[i].contains(10u8));
        assert forall|j: int| 0 <= j < sp[i].len() implies sp[i][j] != 10u8 by {
            if sp[i][j] == 10u8 { assert(sp[i].contains(10u8)); }
        }
        assert(nl_to_nul(sp[i]) =~= sp[i]);
    }
    assert(lines =~= sp);
}

} // verus!
