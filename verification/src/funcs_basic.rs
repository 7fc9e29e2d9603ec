//! Builtin functions on values: sizes, types, truthiness, repetition, ranges.
use vstd::prelude::*;
use crate::typval_defs::{
    varnumber_T, OK, FAIL, VarType, VarLockStatus, BoolVarValue, SpecialVarValue, typval_vval_union,
    typval_T, list_T, dict_T, dictitem_T, blob_T, partial_T, Callback, DictWatcher, TypVal, VVal,
    ListVal, DictVal, BlobVal, CallbackVal, WatcherVal, tv_view, list_view, dict_view, items_view, dict_index_of,
    mk_tv, num_tv, str_tv, list_tv, blob_tv, dict_tv, empty_dict_val, dict_wf, keys_unique,
    lemma_items_view_ext, lemma_items_view_index, lemma_items_view_push, lemma_items_view_subrange,
    lemma_items_view_add, lemma_items_view_reverse, lemma_items_view_update, lemma_items_view_insert,
    lemma_items_view_remove, lemma_items_view_empty,
};
use crate::charset::{nr2str, nr2bytes, str2nr, str2nr_all};
use crate::message::{emsg, msgs_view, after_report, msg_e701, msg_e701_exec, msg_e5070, msg_e5070_exec, msg_e5071, msg_e5071_exec,
    msg_e726, msg_e726_exec, msg_e727, msg_e727_exec, msg_e1531, msg_e1531_exec, msg_e475, msg_e475_exec, msg_e684_upper, msg_e684_upper_exec, msg_e897, msg_e897_exec};
use crate::dup::{bytes_dup, tv_dup, list_dup, dict_dup, blob_dup, items_dup, slice_to_vec, callback_dup, append_bytes};
use crate::typval::{
    number_of, number_chk_result, string_of, string_or_empty, tv_get_number_chk, tv_get_number,
    tv_get_bool, tv_get_string, tv_get_string_chk, tv_get_string_buf_chk, tv_equal, tv_equal_spec,
    bytes_eq, dict_find_index,
};
use crate::typval_list::{empty_list_val, with_items, string_tv, number_tv, list_value, dict_value, tv_list_alloc, tv_list_append_number, tv_list_append_tv, lemma_items_view_index_all};
use crate::typval_blob::{empty_blob_val, tv_blob_alloc, tv_blob_len, tv_blob_get};
use crate::typval_dict::{dict_get, dict_set, tv_dict_find, tv_dict_has_key, lemma_dict_view_parts, tv_dict_add_tv, tv_dict_alloc};
use crate::typval_list::tv_list_reverse;
use crate::typval_copy::{unlocked, unlock_all, tv_list_extend, extend_items, deep_copy_spec, var_item_copy, tv_list_copy, tv_list_flatten, flat_all, copy_items};
use crate::typval_list::{list_from_items, tv_list_ref};
use crate::typval_dict::lemma_dict_index_of;
use crate::charset::{utf8_split, char_len_at, utf8_chars, char_len_exec};
use crate::mbyte::{utf8_decode, first_char_code, char_code_at, char2bytes, char_to_bytes, reverse_text, reverse_cells, escape_spec, escape_bytes, bytes_between};

verus! {

/// The `type()` code of a value type; -1 for an unknown value.
pub open spec fn type_code(t: VarType) -> int {
    match t {
        VarType::VAR_NUMBER => 0,
        VarType::VAR_STRING => 1,
        VarType::VAR_FUNC => 2,
        VarType::VAR_PARTIAL => 2,
        VarType::VAR_LIST => 3,
        VarType::VAR_DICT => 4,
        VarType::VAR_FLOAT => 5,
        VarType::VAR_BOOL => 6,
        VarType::VAR_SPECIAL => 7,
        VarType::VAR_BLOB => 10,
        VarType::VAR_UNKNOWN => -1,
    }
}

/// `len()` of a value: bytes of a String or of a Number's decimal text, items
/// of a List, entries of a Dict, bytes of a Blob; 0 otherwise.
pub open spec fn len_spec(t: TypVal) -> int {
    match (t.ty, t.v) {
        (VarType::VAR_STRING, VVal::Str(s)) => s.len() as int,
        (VarType::VAR_NUMBER, _) => string_or_empty(t).len() as int,
        (VarType::VAR_LIST, VVal::List(Some(l))) => l.items.len() as int,
        (VarType::VAR_DICT, VVal::Dict(Some(d))) => d.keys.len() as int,
        (VarType::VAR_BLOB, VVal::Blob(Some(b))) => b.bytes.len() as int,
        _ => 0,
    }
}

/// The model of `rettv` once a builtin has stored the Number `n` in it (the
/// type tag is left as the caller set it).
pub open spec fn with_number(r: TypVal, n: int) -> TypVal {
    TypVal { v: VVal::Number(n), ..r }
}

/// The model of `rettv` once a builtin has made it the String `s`.
pub open spec fn with_string(r: TypVal, s: Seq<u8>) -> TypVal {
    TypVal { ty: VarType::VAR_STRING, v: VVal::Str(s), ..r }
}

/// The model of `rettv` once a builtin has made it a new List of `items`.
pub open spec fn with_list(r: TypVal, items: Seq<TypVal>) -> TypVal {
    TypVal { ty: VarType::VAR_LIST, v: VVal::List(Some(ListVal { items, ..empty_list_val() })), ..r }
}

/// The model of `rettv` once a builtin has made it a new Blob of `bytes`.
pub open spec fn with_blob(r: TypVal, bytes: Seq<u8>) -> TypVal {
    TypVal { ty: VarType::VAR_BLOB, v: VVal::Blob(Some(BlobVal { bytes, ..empty_blob_val() })), ..r }
}

/// Store the Number `n` in `rettv` (its type tag is left as it is).
pub fn set_number(rettv: &mut typval_T, n: varnumber_T)
    ensures final(rettv)@ == with_number(old(rettv)@, n as int),
{
    rettv.vval = typval_vval_union::v_number(n);
}

/// Make `rettv` the String `s`.
pub fn set_string(rettv: &mut typval_T, s: Vec<u8>)
    ensures final(rettv)@ == with_string(old(rettv)@, s@),
{
    rettv.v_type = VarType::VAR_STRING;
    rettv.vval = typval_vval_union::v_string(s);
}

/// Make `rettv` the List `l`.
pub fn set_list(rettv: &mut typval_T, l: list_T)
    requires l@.lock == VarLockStatus::VAR_UNLOCKED, l@.refcount == 0,
    ensures final(rettv)@ == with_list(old(rettv)@, l@.items),
{
    rettv.v_type = VarType::VAR_LIST;
    rettv.vval = typval_vval_union::v_list(Some(l));
}

/// The error `len()` reports for a value: E701 for any type but String,
/// Number, List, Dict and Blob.
pub open spec fn len_error(t: TypVal) -> Option<Seq<u8>> {
    match (t.ty, t.v) {
        (VarType::VAR_STRING, VVal::Str(_)) => None,
        (VarType::VAR_NUMBER, _) => None,
        _ => if t.ty == VarType::VAR_LIST || t.ty == VarType::VAR_DICT || t.ty == VarType::VAR_BLOB { None } else { Some(msg_e701()) },
    }
}

/// "len({expr})": the length of a String, List, Dict or Blob, or the
/// number of digits (and sign) of a Number; 0 for any other value, which is
/// reported as an error (E701).
pub fn f_len(argvars: &[typval_T], rettv: &mut typval_T, errs: &mut Vec<Vec<u8>>)
    requires
        argvars@.len() >= 1,
        len_spec(argvars@[0]@) <= i64::MAX,
    ensures
        final(rettv)@ == with_number(old(rettv)@, len_spec(argvars@[0]@)),
        msgs_view(final(errs)@) == after_report(old(errs)@, len_error(argvars@[0]@)),
{
    let arg = &argvars[0];
    proof { lemma_items_view_index_all_tv(arg); }
    let n: varnumber_T = match (&arg.v_type, &arg.vval) {
        (VarType::VAR_STRING, typval_vval_union::v_string(s)) => s.len() as varnumber_T,
        (VarType::VAR_NUMBER, _) => {
            let s = tv_get_string(arg);
            s.len() as varnumber_T
        },
        (VarType::VAR_LIST, typval_vval_union::v_list(Some(l))) => l.lv_items.len() as varnumber_T,
        (VarType::VAR_DICT, typval_vval_union::v_dict(Some(d))) => d.dv_hashtab.len() as varnumber_T,
        (VarType::VAR_BLOB, typval_vval_union::v_blob(Some(b))) => b.bv_ga.len() as varnumber_T,
        _ => {
            if arg.v_type != VarType::VAR_LIST && arg.v_type != VarType::VAR_DICT && arg.v_type != VarType::VAR_BLOB {
                emsg(errs, msg_e701_exec());
            }
            0
        },
    };
    set_number(rettv, n);
}

proof fn lemma_items_view_index_all_tv(t: &typval_T)
    ensures
        t.vval is v_list && t.vval->v_list_0 is Some ==> t@.v->List_0->Some_0.items.len() == t.vval->v_list_0->Some_0.lv_items@.len(),
        t.vval is v_dict && t.vval->v_dict_0 is Some ==> t@.v->Dict_0->Some_0.keys.len() == t.vval->v_dict_0->Some_0.dv_hashtab@.len(),
{
    if t.vval is v_list && t.vval->v_list_0 is Some {
        lemma_items_view_index_all(t.vval->v_list_0->Some_0.lv_items@);
    }
}

/// "type({expr})": the type code of the value.
pub fn f_type(argvars: &[typval_T], rettv: &mut typval_T)
    requires argvars@.len() >= 1,
    ensures final(rettv)@ == with_number(old(rettv)@, type_code(argvars@[0].v_type)),
{
    let n: varnumber_T = match argvars[0].v_type {
        VarType::VAR_NUMBER => 0,
        VarType::VAR_STRING => 1,
        VarType::VAR_PARTIAL => 2,
        VarType::VAR_FUNC => 2,
        VarType::VAR_LIST => 3,
        VarType::VAR_DICT => 4,
        VarType::VAR_FLOAT => 5,
        VarType::VAR_BOOL => 6,
        VarType::VAR_SPECIAL => 7,
        VarType::VAR_BLOB => 10,
        VarType::VAR_UNKNOWN => -1,
    };
    set_number(rettv, n);
}

/// IEEE-754 bits of +0.0 and -0.0.
pub open spec fn is_float_zero(bits: u64) -> bool {
    bits == 0 || bits == 0x8000_0000_0000_0000u64
}

/// Whether `empty()` holds of a value.
pub open spec fn empty_spec(t: TypVal) -> bool {
    match (t.ty, t.v) {
        (VarType::VAR_STRING, VVal::Str(s)) => s.len() == 0,
        (VarType::VAR_NUMBER, VVal::Number(x)) => x == 0,
        (VarType::VAR_FLOAT, VVal::Float(f)) => is_float_zero(f),
        (VarType::VAR_LIST, VVal::List(l)) => l is None || l->Some_0.items.len() == 0,
        (VarType::VAR_DICT, VVal::Dict(d)) => d is None || d->Some_0.keys.len() == 0,
        (VarType::VAR_BLOB, VVal::Blob(b)) => b is None || b->Some_0.bytes.len() == 0,
        (VarType::VAR_BOOL, VVal::Bool(b)) => b == BoolVarValue::kBoolVarFalse,
        (VarType::VAR_SPECIAL, _) => true,
        (VarType::VAR_FUNC, _) => false,
        (VarType::VAR_PARTIAL, _) => false,
        _ => true,
    }
}

/// "empty({expr})": 1 when the value is empty, else 0.
pub fn f_empty(argvars: &[typval_T], rettv: &mut typval_T)
    requires argvars@.len() >= 1,
    ensures final(rettv)@ == with_number(old(rettv)@, if empty_spec(argvars@[0]@) { 1 } else { 0 }),
{
    let arg = &argvars[0];
    proof { lemma_items_view_index_all_tv(arg); }
    let e: bool = match (&arg.v_type, &arg.vval) {
        (VarType::VAR_STRING, typval_vval_union::v_string(s)) => s.len() == 0,
        (VarType::VAR_NUMBER, typval_vval_union::v_number(x)) => *x == 0,
        (VarType::VAR_FLOAT, typval_vval_union::v_float(f)) => *f == 0 || *f == 0x8000_0000_0000_0000u64,
        (VarType::VAR_LIST, typval_vval_union::v_list(l)) => match l { None => true, Some(l) => l.lv_items.len() == 0 },
        (VarType::VAR_DICT, typval_vval_union::v_dict(d)) => match d { None => true, Some(d) => d.dv_hashtab.len() == 0 },
        (VarType::VAR_BLOB, typval_vval_union::v_blob(b)) => match b { None => true, Some(b) => b.bv_ga.len() == 0 },
        (VarType::VAR_BOOL, typval_vval_union::v_bool(b)) => *b == BoolVarValue::kBoolVarFalse,
        (VarType::VAR_SPECIAL, _) => true,
        (VarType::VAR_FUNC, _) => false,
        (VarType::VAR_PARTIAL, _) => false,
        _ => true,
    };
    set_number(rettv, if e { 1 } else { 0 });
}

/// The Float bits a value holds (0.0 when it holds none).
pub open spec fn float_bits(t: TypVal) -> u64 {
    match t.v {
        VVal::Float(f) => f,
        _ => 0,
    }
}

/// "abs({expr})": a Float argument gives the Float with its sign cleared;
/// anything else the absolute value of its Number.
pub fn f_abs(argvars: &[typval_T], rettv: &mut typval_T)
    requires
        argvars@.len() >= 1,
        argvars@[0].v_type != VarType::VAR_FLOAT ==> number_chk_result(argvars@[0]@, false) != i64::MIN,
    ensures
        argvars@[0].v_type == VarType::VAR_FLOAT ==> final(rettv)@ == (TypVal {
            ty: VarType::VAR_FLOAT, v: VVal::Float(float_bits(argvars@[0]@) & 0x7fff_ffff_ffff_ffffu64), ..old(rettv)@ }),
        argvars@[0].v_type != VarType::VAR_FLOAT ==> final(rettv)@ == with_number(old(rettv)@, ({
            let n = number_chk_result(argvars@[0]@, false); if n < 0 { -n } else { n } })),
{
    if argvars[0].v_type == VarType::VAR_FLOAT {
        let f: u64 = match &argvars[0].vval { typval_vval_union::v_float(f) => *f, _ => 0 };
        rettv.v_type = VarType::VAR_FLOAT;
        rettv.vval = typval_vval_union::v_float(f & 0x7fff_ffff_ffff_ffffu64);
    } else {
        let n = tv_get_number_chk(&argvars[0], None);
        set_number(rettv, if n < 0 { -n } else { n });
    }
}

/// "char2nr({string})": the code point of the first character.
pub fn f_char2nr(argvars: &[typval_T], rettv: &mut typval_T)
    requires argvars@.len() >= 1,
    ensures final(rettv)@ == with_number(old(rettv)@, first_char_code(string_or_empty(argvars@[0]@))),
{
    let s = tv_get_string(&argvars[0]);
    let n: varnumber_T = if s.len() == 0 { 0 } else { char_code_at(s.as_slice(), 0) as varnumber_T };
    set_number(rettv, n);
}

/// The error `nr2char()` reports for the number `n`: E5070 below zero,
/// E5071 past `INT_MAX`.
pub open spec fn nr2char_error(n: int) -> Option<Seq<u8>> {
    if n < 0 { Some(msg_e5070()) } else if n > i32::MAX { Some(msg_e5071()) } else { None }
}

/// "nr2char({expr})": the character with code point `{expr}` (the empty
/// string for 0); a negative number (E5070) or one past `INT_MAX` (E5071)
/// is an error and leaves `rettv` alone.
pub fn f_nr2char(argvars: &[typval_T], rettv: &mut typval_T, errs: &mut Vec<Vec<u8>>)
    requires argvars@.len() >= 1,
    ensures ({
        let n = number_chk_result(argvars@[0]@, false);
        &&& (n < 0 || n > i32::MAX) ==> final(rettv)@ == old(rettv)@
        &&& (0 <= n <= i32::MAX) ==> final(rettv)@ == with_string(old(rettv)@, if n == 0 { Seq::empty() } else { char2bytes(n) })
        &&& msgs_view(final(errs)@) == after_report(old(errs)@, nr2char_error(n))
    }),
{
    let n = tv_get_number_chk(&argvars[0], None);
    if n < 0 {
        emsg(errs, msg_e5070_exec());
        return;
    }
    if n > 0x7fff_ffff {
        emsg(errs, msg_e5071_exec());
        return;
    }
    proof { assert(msgs_view(errs@) == after_report(errs@, None)); }
    let bytes = if n == 0 { Vec::new() } else { char_to_bytes(n as u32) };
    set_string(rettv, bytes);
}

/// `s` repeated `n` times (empty for `n <= 0`).
pub open spec fn repeat_seq<A>(s: Seq<A>, n: int) -> Seq<A>
    decreases n,
{
    if n <= 0 { Seq::empty() } else { repeat_seq(s, n - 1) + s }
}

fn repeat_list(l: &list_T, n: varnumber_T, rettv: &mut typval_T)
    requires
        l.lv_items@.len() <= i32::MAX,
        n <= 0 || n * l.lv_items@.len() <= i64::MAX,
    ensures final(rettv)@ == with_list(old(rettv)@, repeat_seq(unlock_all(l@.items), n as int)),
{
    let cnt: varnumber_T = if n > 0 { n } else { 0 };
    let len: varnumber_T = cnt * (l.lv_items.len() as varnumber_T);
    let mut out = tv_list_alloc(len as isize);
    let ghost s = unlock_all(l@.items);
    let mut i: varnumber_T = 0;
    while i < n
        invariant
            0 <= i,
            n > 0 ==> i <= n,
            n <= 0 ==> i == 0,
            out@ == (ListVal { items: repeat_seq(s, i as int), ..empty_list_val() }),
            s == unlock_all(l@.items),
        decreases n - i,
    {
        tv_list_extend(&mut out, l, None);
        i += 1;
    }
    assert(repeat_seq(s, n as int) == repeat_seq(s, i as int));
    set_list(rettv, out);
}

fn repeat_blob(blob: Option<&blob_T>, n: varnumber_T, rettv: &mut typval_T)
    requires
        blob is Some && n > 0 ==> blob->Some_0.bv_ga@.len() * n <= usize::MAX,
    ensures
        final(rettv)@ == with_blob(old(rettv)@, match blob {
            Some(b) => if n > 0 { repeat_seq(b@.bytes, n as int) } else { Seq::empty() },
            None => Seq::empty(),
        }),
{
    let mut data: Vec<u8> = Vec::new();
    match blob {
        None => {},
        Some(b) => {
            if n > 0 {
                let mut i: varnumber_T = 0;
                while i < n
                    invariant 0 <= i <= n, data@ == repeat_seq(b@.bytes, i as int),
                    decreases n - i,
                {
                    append_bytes(&mut data, b.bv_ga.as_slice());
                    i += 1;
                }
            }
        },
    }
    rettv.v_type = VarType::VAR_BLOB;
    rettv.vval = typval_vval_union::v_blob(Some(blob_T { bv_ga: data, bv_lock: VarLockStatus::VAR_UNLOCKED, bv_refcount: 0 }));
}

/// `repeat()` gives `n` copies one after the other: `n` times as long, and
/// the item at `k` is the one at `k` modulo the length of what is repeated.
pub proof fn lemma_repeat_shape<A>(s: Seq<A>, n: int)
    requires n >= 0, s.len() > 0,
    ensures
        repeat_seq(s, n).len() == n * s.len(),
        forall|k: int| 0 <= k < n * s.len() ==> #[trigger] repeat_seq(s, n)[k] == s[k % (s.len() as int)],
    decreases n,
{
    let l = s.len() as int;
    if n == 0 {
        assert(repeat_seq(s, n) =~= Seq::<A>::empty());
    } else {
        lemma_repeat_shape(s, n - 1);
        let p = repeat_seq(s, n - 1);
        assert(repeat_seq(s, n) == p + s);
        assert(n * l == (n - 1) * l + l) by (nonlinear_arith);
        assert(p.len() == (n - 1) * l);
        assert forall|k: int| 0 <= k < n * l implies #[trigger] repeat_seq(s, n)[k] == s[k % l] by {
            if k < (n - 1) * l {
                assert(repeat_seq(s, n)[k] == p[k]);
                assert(p[k] == s[k % l]);
            } else {
                let j = k - (n - 1) * l;
                assert(repeat_seq(s, n)[k] == s[j]);
                vstd::arithmetic::div_mod::lemma_fundamental_div_mod_converse(k, l, n - 1, j);
            }
        }
    }
}

/// The String `repeat()` makes of a String value: empty when `n <= 0`, when
/// the string is empty, or when the result's length would not fit in `usize`.
pub open spec fn repeat_string_spec(p: Seq<u8>, n: int) -> Seq<u8> {
    if n <= 0 || p.len() == 0 || p.len() * n > usize::MAX { Seq::empty() } else { repeat_seq(p, n) }
}

fn repeat_string(str_tv: &typval_T, n: varnumber_T, rettv: &mut typval_T)
    ensures final(rettv)@ == with_string(old(rettv)@, repeat_string_spec(string_or_empty(str_tv@), n as int)),
{
    if n <= 0 {
        set_string(rettv, Vec::new());
        return;
    }
    let p = tv_get_string(str_tv);
    let slen = p.len();
    if slen == 0 {
        set_string(rettv, Vec::new());
        return;
    }
    assert((slen as u128) * (n as u128) <= 0xffff_ffff_ffff_ffffu128 * 0x7fff_ffff_ffff_ffffu128) by (nonlinear_arith)
        requires slen as u128 <= 0xffff_ffff_ffff_ffffu128, n as u128 <= 0x7fff_ffff_ffff_ffffu128, n > 0;
    if (slen as u128) * (n as u128) > usize::MAX as u128 {
        set_string(rettv, Vec::new());
        return;
    }
    let mut r: Vec<u8> = Vec::new();
    let mut i: varnumber_T = 0;
    while i < n
        invariant 0 <= i <= n, r@ == repeat_seq(p@, i as int),
        decreases n - i,
    {
        append_bytes(&mut r, p.as_slice());
        i += 1;
    }
    set_string(rettv, r);
}

/// "repeat({expr}, {count})": a List, Blob or String repeated `{count}` times.
pub fn f_repeat(argvars: &[typval_T], rettv: &mut typval_T)
    requires
        argvars@.len() >= 2,
        ({
            let n = number_chk_result(argvars@[1]@, true);
            match argvars@[0].vval {
                typval_vval_union::v_list(Some(l)) => argvars@[0].v_type == VarType::VAR_LIST ==>
                    l.lv_items@.len() <= i32::MAX && (n <= 0 || n * l.lv_items@.len() <= i64::MAX),
                typval_vval_union::v_blob(Some(b)) => argvars@[0].v_type == VarType::VAR_BLOB ==>
                    (n <= 0 || b.bv_ga@.len() * n <= usize::MAX),
                _ => true,
            }
        }),
    ensures ({
        let n = number_chk_result(argvars@[1]@, true);
        let a = argvars@[0]@;
        final(rettv)@ == match (a.ty, a.v) {
            (VarType::VAR_LIST, VVal::List(Some(l))) => with_list(old(rettv)@, repeat_seq(unlock_all(l.items), n)),
            (VarType::VAR_LIST, _) => with_list(old(rettv)@, Seq::empty()),
            (VarType::VAR_BLOB, VVal::Blob(Some(b))) => with_blob(old(rettv)@, if n > 0 { repeat_seq(b.bytes, n) } else { Seq::empty() }),
            (VarType::VAR_BLOB, VVal::Blob(None)) => with_blob(old(rettv)@, Seq::empty()),
            _ => with_string(old(rettv)@, repeat_string_spec(string_or_empty(a), n)),
        }
    }),
{
    let n = tv_get_number(&argvars[1]);
    match (&argvars[0].v_type, &argvars[0].vval) {
        (VarType::VAR_LIST, typval_vval_union::v_list(Some(l))) => repeat_list(l, n, rettv),
        (VarType::VAR_LIST, _) => set_list(rettv, tv_list_alloc(0)),
        (VarType::VAR_BLOB, typval_vval_union::v_blob(b)) => {
            match b {
                Some(b) => repeat_blob(Some(b), n, rettv),
                None => repeat_blob(None, n, rettv),
            }
        },
        _ => repeat_string(&argvars[0], n, rettv),
    }
}

/// The bytes of a register name: the character whose code is `r`.
pub open spec fn register_bytes(r: u8) -> Seq<u8> {
    if r == 0 { Seq::empty() } else { char2bytes(r as int) }
}

/// Make `rettv` the String naming register `regname` (empty for NUL).
pub fn return_register(regname: u8, rettv: &mut typval_T)
    ensures final(rettv)@ == with_string(old(rettv)@, register_bytes(regname)),
{
    let s = if regname == 0 { Vec::new() } else { char_to_bytes(regname as u32) };
    set_string(rettv, s);
}

/// Whether the character `c` (as bytes) is one of the characters of `s`.
pub open spec fn has_char(s: Seq<u8>, c: Seq<u8>) -> bool {
    exists|k: int| 0 <= k < utf8_split(s).len() && #[trigger] utf8_split(s)[k] == c
}

fn contains_char(s: &[u8], c: &[u8]) -> (r: bool)
    ensures r == has_char(s@, c@),
{
    let chars = utf8_chars(s);
    let mut i: usize = 0;
    while i < chars.len()
        invariant
            i <= chars@.len(),
            chars@.len() == utf8_split(s@).len(),
            forall|k: int| 0 <= k < chars@.len() ==> #[trigger] chars@[k]@ == utf8_split(s@)[k],
            forall|k: int| 0 <= k < i ==> utf8_split(s@)[k] != c@,
        decreases chars@.len() - i,
    {
        if bytes_eq(chars[i].as_slice(), c) {
            assert(utf8_split(s@)[i as int] == c@);
            return true;
        }
        i += 1;
    }
    false
}

/// Append the state character `c` to `gap` when `wanted` is absent or
/// contains it.
pub fn may_add_state_char(gap: &mut Vec<u8>, wanted: Option<&[u8]>, c: char)
    requires c as int <= i32::MAX,
    ensures
        final(gap)@ == if wanted is None || has_char(wanted->Some_0@, char2bytes(c as int)) {
            old(gap)@ + char2bytes(c as int)
        } else {
            old(gap)@
        },
{
    let cb = char_to_bytes(c as u32);
    let take = match wanted {
        None => true,
        Some(inc) => contains_char(inc, cb.as_slice()),
    };
    if take {
        append_bytes(gap, cb.as_slice());
    }
}

/// Name `idx` for completion of function names: none are offered.
pub fn get_function_name(idx: i32) -> (r: Option<Vec<u8>>)
    ensures r is None,
{
    None
}

/// Name `idx` for completion of expressions: none are offered.
pub fn get_expr_name(idx: i32) -> (r: Option<Vec<u8>>)
    ensures r is None,
{
    None
}

/// Dispatcher for API builtins; there are none, so nothing is done.
pub fn api_wrapper(argvars: &[typval_T], rettv: &mut typval_T)
    ensures final(rettv)@ == old(rettv)@,
{
}

/// Dispatcher for Lua builtins; there are none, so nothing is done.
pub fn lua_wrapper(argvars: &[typval_T], rettv: &mut typval_T)
    ensures final(rettv)@ == old(rettv)@,
{
}

/// Timer callback of `wait()`; no event loop drives it.
pub fn dummy_timer_due_cb() {
}

/// Timer close callback of `wait()`; no event loop drives it.
pub fn dummy_timer_close_cb() {
}

/// Make another buffer current; there is one buffer, so nothing changes.
pub fn switch_buffer() {
}

/// Restore the buffer `switch_buffer()` saved; nothing to restore.
pub fn restore_buffer() {
}

/// Prepare changing a buffer that is not current; there is none.
pub fn change_other_buffer_prepare() {
}

/// Undo `change_other_buffer_prepare()`; nothing to undo.
pub fn change_other_buffer_restore() {
}

/// Whether a value is a "true" first argument: a non-zero Number, `v:true`,
/// or a non-empty String.
pub open spec fn non_zero_spec(t: TypVal) -> bool {
    match (t.ty, t.v) {
        (VarType::VAR_NUMBER, VVal::Number(n)) => n != 0,
        (VarType::VAR_BOOL, VVal::Bool(b)) => b == BoolVarValue::kBoolVarTrue,
        (VarType::VAR_STRING, VVal::Str(s)) => s.len() > 0,
        _ => false,
    }
}

/// Whether the first argument is "true" (see `non_zero_spec`).
pub fn non_zero_arg(argvars: &[typval_T]) -> (r: bool)
    requires argvars@.len() >= 1,
    ensures r == non_zero_spec(argvars@[0]@),
{
    match (&argvars[0].v_type, &argvars[0].vval) {
        (VarType::VAR_NUMBER, typval_vval_union::v_number(n)) => *n != 0,
        (VarType::VAR_BOOL, typval_vval_union::v_bool(b)) => *b == BoolVarValue::kBoolVarTrue,
        (VarType::VAR_STRING, typval_vval_union::v_string(s)) => s.len() > 0,
        _ => false,
    }
}

/// The measure of an upward count from `i` to `end`.
pub open spec fn up_measure(i: int, end: int) -> int {
    if i > end { 0 } else { end - i + 1 }
}

/// `i, i + stride, ...` while not past `end`, counting up (`stride > 0`).
pub open spec fn range_up(i: int, end: int, stride: int) -> Seq<int>
    recommends stride > 0,
    decreases up_measure(i, end),
{
    if stride <= 0 || i > end { Seq::empty() } else { seq![i] + range_up(i + stride, end, stride) }
}

/// `i, i + stride, ...` while not below `end`, counting down (`stride < 0`).
pub open spec fn range_down(i: int, end: int, stride: int) -> Seq<int>
    recommends stride < 0,
    decreases up_measure(end, i),
{
    if stride >= 0 || i < end { Seq::empty() } else { seq![i] + range_down(i + stride, end, stride) }
}

/// Every step of the count, including the one that passes `end`, stays
/// within the Number range.
pub open spec fn range_up_fits(i: int, end: int, stride: int) -> bool
    decreases up_measure(i, end),
{
    if stride <= 0 || i > end { true } else { i + stride <= i64::MAX && range_up_fits(i + stride, end, stride) }
}

pub open spec fn range_down_fits(i: int, end: int, stride: int) -> bool
    decreases up_measure(end, i),
{
    if stride >= 0 || i < end { true } else { i + stride >= i64::MIN && range_down_fits(i + stride, end, stride) }
}

/// The (start, end, stride) that `range()` reads from its arguments.
pub open spec fn range_args(args: Seq<typval_T>) -> (int, int, int) {
    let a0 = number_chk_result(args[0]@, false);
    if args.len() == 1 {
        (0, a0 - 1, 1)
    } else if args.len() == 2 {
        (a0, number_chk_result(args[1]@, false), 1)
    } else {
        (a0, number_chk_result(args[1]@, false), number_chk_result(args[2]@, false))
    }
}

/// The Numbers of a range as List items.
pub open spec fn numbers(s: Seq<int>) -> Seq<TypVal> {
    Seq::new(s.len(), |i: int| num_tv(s[i]))
}

proof fn lemma_range_up_by_one(i: int, end: int)
    requires i <= end + 1,
    ensures
        range_up(i, end, 1).len() == end - i + 1,
        forall|k: int| 0 <= k < end - i + 1 ==> #[trigger] range_up(i, end, 1)[k] == i + k,
    decreases up_measure(i, end),
{
    if i <= end {
        lemma_range_up_by_one(i + 1, end);
        let rest = range_up(i + 1, end, 1);
        assert forall|k: int| 0 <= k < end - i + 1 implies #[trigger] range_up(i, end, 1)[k] == i + k by {
            if k > 0 { assert(range_up(i, end, 1)[k] == rest[k - 1]); }
        }
    }
}

proof fn lemma_range_up_steps(i: int, end: int, stride: int)
    requires stride > 0,
    ensures ({
        let r = range_up(i, end, stride);
        &&& (r.len() == 0 <==> i > end)
        &&& r.len() > 0 ==> r[0] == i && r.last() <= end && r.last() + stride > end
        &&& forall|k: int| 0 <= k < r.len() ==> i <= #[trigger] r[k] <= end
        &&& forall|k: int| 0 <= k < r.len() - 1 ==> #[trigger] r[k + 1] == r[k] + stride
    }),
    decreases up_measure(i, end),
{
    if i <= end {
        lemma_range_up_steps(i + stride, end, stride);
        let r = range_up(i, end, stride);
        let rest = range_up(i + stride, end, stride);
        assert(r == seq![i] + rest);
        assert forall|k: int| 0 <= k < r.len() implies i <= #[trigger] r[k] <= end by {
            if k > 0 { assert(r[k] == rest[k - 1]); }
        }
        assert forall|k: int| 0 <= k < r.len() - 1 implies #[trigger] r[k + 1] == r[k] + stride by {
            assert(r[k + 1] == rest[k]);
            if k > 0 {
                assert(r[k] == rest[k - 1]);
                let k1 = k - 1;
                assert(rest[k1 + 1] == rest[k1] + stride);
            }
        }
        if rest.len() > 0 { assert(r.last() == rest.last()); }
    }
}

proof fn lemma_range_down_steps(i: int, end: int, stride: int)
    requires stride < 0,
    ensures ({
        let r = range_down(i, end, stride);
        &&& (r.len() == 0 <==> i < end)
        &&& r.len() > 0 ==> r[0] == i && r.last() >= end && r.last() + stride < end
        &&& forall|k: int| 0 <= k < r.len() ==> end <= #[trigger] r[k] <= i
        &&& forall|k: int| 0 <= k < r.len() - 1 ==> #[trigger] r[k + 1] == r[k] + stride
    }),
    decreases up_measure(end, i),
{
    if i >= end {
        lemma_range_down_steps(i + stride, end, stride);
        let r = range_down(i, end, stride);
        let rest = range_down(i + stride, end, stride);
        assert(r == seq![i] + rest);
        assert forall|k: int| 0 <= k < r.len() implies end <= #[trigger] r[k] <= i by {
            if k > 0 { assert(r[k] == rest[k - 1]); }
        }
        assert forall|k: int| 0 <= k < r.len() - 1 implies #[trigger] r[k + 1] == r[k] + stride by {
            assert(r[k + 1] == rest[k]);
            if k > 0 {
                assert(r[k] == rest[k - 1]);
                let k1 = k - 1;
                assert(rest[k1 + 1] == rest[k1] + stride);
            }
        }
        if rest.len() > 0 { assert(r.last() == rest.last()); }
    }
}

/// "range(start, end, stride)" with a stride that is not zero gives the
/// Numbers that begin at `start` and go up (down for a negative stride) by
/// `stride`, none past `end`, ending with the last one before the next
/// would pass `end`; the List is empty exactly when `start` is already past
/// `end`.
pub proof fn lemma_range_steps(start: int, end: int, stride: int)
    requires stride != 0,
    ensures ({
        let r = if stride > 0 { range_up(start, end, stride) } else { range_down(start, end, stride) };
        &&& (r.len() == 0 <==> (if stride > 0 { start > end } else { start < end }))
        &&& r.len() > 0 ==> r[0] == start
        &&& r.len() > 0 ==> (if stride > 0 { r.last() + stride > end } else { r.last() + stride < end })
        &&& forall|k: int| 0 <= k < r.len() ==> (stride > 0 ==> start <= #[trigger] r[k] <= end) && (stride < 0 ==> end <= r[k] <= start)
        &&& forall|k: int| 0 <= k < r.len() - 1 ==> #[trigger] r[k + 1] == r[k] + stride
    }),
{
    if stride > 0 { lemma_range_up_steps(start, end, stride); } else { lemma_range_down_steps(start, end, stride); }
}

/// "range(n)" for `n >= 0` is the List of the `n` Numbers 0, 1, ..., n - 1,
/// and nothing is reported.
pub proof fn lemma_range_count(args: Seq<typval_T>)
    requires args.len() == 1, number_chk_result(args[0]@, false) >= 0,
    ensures ({
        let n = number_chk_result(args[0]@, false);
        let (start, end, stride) = range_args(args);
        &&& range_error(args) is None
        &&& stride > 0
        &&& numbers(range_up(start, end, stride)).len() == n
        &&& forall|k: int| 0 <= k < n ==> #[trigger] numbers(range_up(start, end, stride))[k] == num_tv(k)
    }),
{
    let n = number_chk_result(args[0]@, false);
    lemma_range_up_by_one(0, n - 1);
}

/// "range(a, b)" for `a <= b + 1` is the List of the `b - a + 1` Numbers
/// a, a + 1, ..., b, and nothing is reported.
pub proof fn lemma_range_from_to(args: Seq<typval_T>)
    requires
        args.len() == 2,
        number_chk_result(args[0]@, false) <= number_chk_result(args[1]@, false) + 1,
    ensures ({
        let a = number_chk_result(args[0]@, false);
        let b = number_chk_result(args[1]@, false);
        let (start, end, stride) = range_args(args);
        &&& range_error(args) is None
        &&& stride > 0
        &&& numbers(range_up(start, end, stride)).len() == b - a + 1
        &&& forall|k: int| 0 <= k < b - a + 1 ==> #[trigger] numbers(range_up(start, end, stride))[k] == num_tv(a + k)
    }),
{
    let a = number_chk_result(args[0]@, false);
    let b = number_chk_result(args[1]@, false);
    lemma_range_up_by_one(a, b);
}

/// The error `range()` reports: E726 for a zero stride, E727 for a start
/// past the end.
pub open spec fn range_error(args: Seq<typval_T>) -> Option<Seq<u8>> {
    let (start, end, stride) = range_args(args);
    if stride == 0 { Some(msg_e726()) }
    else if (stride > 0 && end + 1 < start) || (stride < 0 && end - 1 > start) { Some(msg_e727()) }
    else { None }
}

/// "range({expr} [, {max} [, {stride}]])": `range(n)` is `0 .. n-1`;
/// `range(a, b [, s])` is `a, a+s, ...` up to and including `b`. A zero
/// stride (E726) or a start past the end (E727) leaves `rettv` alone.
pub fn f_range(argvars: &[typval_T], rettv: &mut typval_T, errs: &mut Vec<Vec<u8>>)
    requires
        argvars@.len() >= 1,
        argvars@.len() == 1 ==> number_chk_result(argvars@[0]@, false) != i64::MIN,
        ({
            let (start, end, stride) = range_args(argvars@);
            &&& stride > 0 ==> end < i64::MAX && range_up_fits(start, end, stride)
            &&& stride < 0 ==> end > i64::MIN && range_down_fits(start, end, stride)
        }),
    ensures
        msgs_view(final(errs)@) == after_report(old(errs)@, range_error(argvars@)),
    ({
        let (start, end, stride) = range_args(argvars@);
        if stride == 0 || (stride > 0 && end + 1 < start) || (stride < 0 && end - 1 > start) {
            final(rettv)@ == old(rettv)@
        } else if stride > 0 {
            final(rettv)@ == with_list(old(rettv)@, numbers(range_up(start, end, stride)))
        } else {
            final(rettv)@ == with_list(old(rettv)@, numbers(range_down(start, end, stride)))
        }
    }),
{
    let a0 = tv_get_number_chk(&argvars[0], None);
    let (start, end, stride): (i64, i64, i64) = if argvars.len() == 1 {
        (0, a0 - 1, 1)
    } else if argvars.len() == 2 {
        (a0, tv_get_number_chk(&argvars[1], None), 1)
    } else {
        (a0, tv_get_number_chk(&argvars[1], None), tv_get_number_chk(&argvars[2], None))
    };
    if stride == 0 {
        emsg(errs, msg_e726_exec());
        return;
    }
    if stride > 0 {
        if end + 1 < start {
            emsg(errs, msg_e727_exec());
            return;
        }
    } else {
        if end - 1 > start {
            emsg(errs, msg_e727_exec());
            return;
        }
    }
    let mut l = tv_list_alloc(0);
    let mut i: i64 = start;
    if stride > 0 {
        while i <= end
            invariant
                stride > 0,
                range_up_fits(i as int, end as int, stride as int),
                numbers(range_up(start as int, end as int, stride as int))
                    == l@.items + numbers(range_up(i as int, end as int, stride as int)),
                l@.lock == VarLockStatus::VAR_UNLOCKED, l@.refcount == 0,
            decreases up_measure(i as int, end as int),
        {
            let ghost before = l@.items;
            tv_list_append_number(&mut l, i);
            proof {
                let rest = range_up(i + stride, end as int, stride as int);
                assert(range_up(i as int, end as int, stride as int) == seq![i as int] + rest);
                assert(numbers(seq![i as int] + rest) =~= seq![num_tv(i as int)] + numbers(rest));
                assert(before + (seq![num_tv(i as int)] + numbers(rest)) =~= l@.items + numbers(rest));
            }
            i = i + stride;
        }
    } else {
        while i >= end
            invariant
                stride < 0,
                range_down_fits(i as int, end as int, stride as int),
                numbers(range_down(start as int, end as int, stride as int))
                    == l@.items + numbers(range_down(i as int, end as int, stride as int)),
                l@.lock == VarLockStatus::VAR_UNLOCKED, l@.refcount == 0,
            decreases up_measure(end as int, i as int),
        {
            let ghost before = l@.items;
            tv_list_append_number(&mut l, i);
            proof {
                let rest = range_down(i + stride, end as int, stride as int);
                assert(range_down(i as int, end as int, stride as int) == seq![i as int] + rest);
                assert(numbers(seq![i as int] + rest) =~= seq![num_tv(i as int)] + numbers(rest));
                assert(before + (seq![num_tv(i as int)] + numbers(rest)) =~= l@.items + numbers(rest));
            }
            i = i + stride;
        }
    }
    proof {
        assert(numbers(Seq::<int>::empty()) =~= Seq::<TypVal>::empty());
        assert(l@.items + Seq::<TypVal>::empty() =~= l@.items);
    }
    set_list(rettv, l);
}

/// `new` is `old` with its first argument replaced by a value of model `first`.
pub open spec fn first_arg_set(old: Seq<typval_T>, new: Seq<typval_T>, first: TypVal) -> bool {
    &&& new.len() == old.len()
    &&& new[0]@ == first
    &&& forall|i: int| 1 <= i < old.len() ==> new[i] == old[i]
}

/// The byte that a Number becomes when stored in a Blob (its low eight bits).
pub open spec fn low_byte(n: int) -> u8 {
    (n % 256) as u8
}

/// The low eight bits of `n`.
pub fn low_byte_exec(n: i64) -> (r: u8)
    ensures r == low_byte(n as int),
{
    let m = n % 256;
    let m2: i64 = if m < 0 { m + 256 } else { m };
    m2 as u8
}

/// Replace the first argument by `v`.
pub fn replace_first(argvars: &mut Vec<typval_T>, v: typval_T)
    requires old(argvars)@.len() >= 1,
    ensures first_arg_set(old(argvars)@, final(argvars)@, v@),
{
    argvars.set(0, v);
}

/// The model of a List value whose items are replaced.
pub open spec fn list_with_items(a: TypVal, l: ListVal, items: Seq<TypVal>) -> TypVal {
    TypVal { v: VVal::List(Some(ListVal { items, ..l })), ..a }
}

/// The model of a Blob value whose bytes are replaced.
pub open spec fn blob_with_bytes(a: TypVal, b: BlobVal, bytes: Seq<u8>) -> TypVal {
    TypVal { v: VVal::Blob(Some(BlobVal { bytes, ..b })), ..a }
}

/// "add({object}, {expr})": append `{expr}` to a List, or its low byte to a
/// Blob; the result is the changed object. Anything else leaves the
/// arguments alone and returns 1 (E897).
pub fn f_add(argvars: &mut Vec<typval_T>, rettv: &mut typval_T)
    requires old(argvars)@.len() >= 2,
    ensures ({
        let a = old(argvars)@[0]@;
        match (a.ty, a.v) {
            (VarType::VAR_LIST, VVal::List(Some(l))) => {
                let na = list_with_items(a, l, l.items.push(old(argvars)@[1]@));
                first_arg_set(old(argvars)@, final(argvars)@, na) && final(rettv)@ == na
            },
            (VarType::VAR_BLOB, VVal::Blob(Some(b))) => {
                let nb = blob_with_bytes(a, b, b.bytes.push(low_byte(number_chk_result(old(argvars)@[1]@, false))));
                first_arg_set(old(argvars)@, final(argvars)@, nb) && final(rettv)@ == nb
            },
            _ => final(argvars)@ == old(argvars)@ && final(rettv)@ == num_tv(1),
        }
    }),
{
    *rettv = number_tv(1);
    let a1 = tv_dup(&argvars[1]);
    let mut a0 = tv_dup(&argvars[0]);
    if a0.v_type == VarType::VAR_LIST {
        if let typval_vval_union::v_list(Some(l)) = &mut a0.vval {
            tv_list_append_tv(l, a1);
        } else {
            return;
        }
    } else if a0.v_type == VarType::VAR_BLOB {
        let n = tv_get_number_chk(&argvars[1], None);
        if let typval_vval_union::v_blob(Some(b)) = &mut a0.vval {
            b.bv_ga.push(low_byte_exec(n));
        } else {
            return;
        }
    } else {
        return;
    }
    *rettv = tv_dup(&a0);
    replace_first(argvars, a0);
}

/// "reverse({object})": reverse a List or Blob in place (the result is the
/// changed object), or return a String with its cells reversed; any other
/// value changes nothing.
pub fn f_reverse(argvars: &mut Vec<typval_T>, rettv: &mut typval_T)
    requires old(argvars)@.len() >= 1,
    ensures ({
        let a = old(argvars)@[0]@;
        match (a.ty, a.v) {
            (VarType::VAR_LIST, VVal::List(Some(l))) => {
                let na = list_with_items(a, l, l.items.reverse());
                first_arg_set(old(argvars)@, final(argvars)@, na) && final(rettv)@ == na
            },
            (VarType::VAR_BLOB, VVal::Blob(Some(b))) => {
                let nb = blob_with_bytes(a, b, b.bytes.reverse());
                first_arg_set(old(argvars)@, final(argvars)@, nb) && final(rettv)@ == nb
            },
            (VarType::VAR_STRING, VVal::Str(s)) =>
                final(argvars)@ == old(argvars)@ && final(rettv)@ == with_string(old(rettv)@, reverse_cells(s)),
            _ => final(argvars)@ == old(argvars)@ && final(rettv)@ == old(rettv)@,
        }
    }),
{
    let mut a0 = tv_dup(&argvars[0]);
    if a0.v_type == VarType::VAR_LIST {
        if let typval_vval_union::v_list(Some(l)) = &mut a0.vval {
            tv_list_reverse(l);
        } else {
            return;
        }
    } else if a0.v_type == VarType::VAR_BLOB {
        if let typval_vval_union::v_blob(Some(b)) = &mut a0.vval {
            let ghost old_bytes = b.bv_ga@;
            let mut out: Vec<u8> = Vec::new();
            let mut k: usize = b.bv_ga.len();
            while k > 0
                invariant k <= old_bytes.len(), b.bv_ga@ == old_bytes,
                    out@ == old_bytes.reverse().subrange(0, (old_bytes.len() - k) as int),
                decreases k,
            {
                k -= 1;
                out.push(b.bv_ga[k]);
                assert(out@ =~= old_bytes.reverse().subrange(0, (old_bytes.len() - k) as int));
            }
            assert(out@ =~= old_bytes.reverse());
            b.bv_ga = out;
        } else {
            return;
        }
    } else if a0.v_type == VarType::VAR_STRING {
        if let typval_vval_union::v_string(s) = &argvars[0].vval {
            let r = reverse_text(s.as_slice());
            set_string(rettv, r);
        }
        return;
    } else {
        return;
    }
    *rettv = tv_dup(&a0);
    replace_first(argvars, a0);
}

/// The value that `get()` finds in a List or Dict, if any.
pub open spec fn get_found(a: TypVal, key: TypVal) -> Option<TypVal> {
    match (a.ty, a.v) {
        (VarType::VAR_LIST, VVal::List(Some(l))) => {
            let n = number_chk_result(key, false);
            let i = if n < 0 { n + l.items.len() } else { n };
            if 0 <= i < l.items.len() { Some(l.items[i]) } else { None }
        },
        (VarType::VAR_DICT, VVal::Dict(Some(d))) => dict_get(d, string_or_empty(key)),
        _ => None,
    }
}

/// The index `get()` reads in a Blob: the Number truncated to 32 bits, counted
/// from the end when negative.
pub open spec fn blob_get_index(n: int, len: int) -> int {
    let i = (n as i32) as int;
    if i < 0 { i + len } else { i }
}

/// The error `get()` reports: E1531 for a value that is no List, Dict, Blob
/// or Funcref.
pub open spec fn get_error(a: TypVal) -> Option<Seq<u8>> {
    if a.ty == VarType::VAR_BLOB || a.ty == VarType::VAR_LIST || a.ty == VarType::VAR_DICT
        || a.ty == VarType::VAR_FUNC || a.ty == VarType::VAR_PARTIAL { None } else { Some(msg_e1531()) }
}

/// "get({list}, {idx} [, {default}])", "get({dict}, {key} [, {default}])",
/// "get({blob}, {idx} [, {default}])": the item, else `{default}`, else 0
/// (-1 for a Blob). Funcrefs give the default. Any other value is an error
/// (E1531) that leaves `rettv` alone.
pub fn f_get(argvars: &[typval_T], rettv: &mut typval_T, errs: &mut Vec<Vec<u8>>)
    requires
        argvars@.len() >= 2,
        argvars@[0]@.v is Blob && argvars@[0]@.v->Blob_0 is Some ==> argvars@[0]@.v->Blob_0->Some_0.bytes.len() <= i32::MAX,
    ensures ({
        let a = argvars@[0]@;
        let def = if argvars@.len() > 2 { Some(argvars@[2]@) } else { None };
        if a.ty == VarType::VAR_BLOB {
            match a.v {
                VVal::Blob(Some(b)) if 0 <= blob_get_index(number_chk_result(argvars@[1]@, false), b.bytes.len() as int) < b.bytes.len() =>
                    final(rettv)@ == TypVal { ty: VarType::VAR_NUMBER, v: VVal::Number(
                        b.bytes[blob_get_index(number_chk_result(argvars@[1]@, false), b.bytes.len() as int)] as int), ..old(rettv)@ },
                _ => match def {
                    Some(d) => final(rettv)@ == d,
                    None => final(rettv)@ == TypVal { ty: VarType::VAR_NUMBER, v: VVal::Number(-1), ..old(rettv)@ },
                },
            }
        } else if a.ty == VarType::VAR_LIST || a.ty == VarType::VAR_DICT || a.ty == VarType::VAR_FUNC || a.ty == VarType::VAR_PARTIAL {
            match get_found(a, argvars@[1]@) {
                Some(v) => final(rettv)@ == v,
                None => match def {
                    Some(d) => final(rettv)@ == d,
                    None => final(rettv)@ == with_number(old(rettv)@, 0),
                },
            }
        } else {
            final(rettv)@ == old(rettv)@
        }
    }),
    msgs_view(final(errs)@) == after_report(old(errs)@, get_error(argvars@[0]@)),
{
    if argvars[0].v_type == VarType::VAR_BLOB {
        rettv.v_type = VarType::VAR_NUMBER;
        if let typval_vval_union::v_blob(Some(b)) = &argvars[0].vval {
            let len = tv_blob_len(b);
            let n = tv_get_number_chk(&argvars[1], None);
            let mut idx: i32 = n as i32;
            if idx < 0 {
                idx = idx + len;
            }
            if idx >= 0 && idx < len {
                set_number(rettv, tv_blob_get(b, idx) as varnumber_T);
                return;
            }
        }
        if argvars.len() > 2 {
            *rettv = tv_dup(&argvars[2]);
        } else {
            set_number(rettv, -1);
        }
        return;
    }
    let found: Option<typval_T> = match (&argvars[0].v_type, &argvars[0].vval) {
        (VarType::VAR_LIST, typval_vval_union::v_list(Some(l))) => {
            proof { lemma_items_view_index_all(l.lv_items@); }
            let len = l.lv_items.len();
            let n = tv_get_number_chk(&argvars[1], None);
            if n < 0 {
                if (len as u64) >= ((0 - (n as i128)) as u64) {
                    let i: usize = len - ((0 - (n as i128)) as usize);
                    if i < len { Some(tv_dup(&l.lv_items[i])) } else { None }
                } else {
                    None
                }
            } else if (n as u64) < (len as u64) {
                Some(tv_dup(&l.lv_items[n as usize]))
            } else {
                None
            }
        },
        (VarType::VAR_DICT, typval_vval_union::v_dict(Some(d))) => {
            let key = tv_get_string(&argvars[1]);
            match tv_dict_find(d, key.as_slice()) {
                Some(v) => Some(tv_dup(v)),
                None => None,
            }
        },
        (VarType::VAR_LIST, _) => None,
        (VarType::VAR_DICT, _) => None,
        (VarType::VAR_FUNC, _) => None,
        (VarType::VAR_PARTIAL, _) => None,
        _ => {
            emsg(errs, msg_e1531_exec());
            return;
        },
    };
    match found {
        Some(v) => {
            *rettv = v;
        },
        None => {
            if argvars.len() > 2 {
                *rettv = tv_dup(&argvars[2]);
            } else {
                set_number(rettv, 0);
            }
        },
    }
}

/// "has_key({dict}, {key})": 1 when the Dict has the key, else 0.
pub fn f_has_key(argvars: &[typval_T], rettv: &mut typval_T)
    requires argvars@.len() >= 2,
    ensures final(rettv)@ == with_number(old(rettv)@, match (argvars@[0]@.ty, argvars@[0]@.v) {
        (VarType::VAR_DICT, VVal::Dict(Some(d))) => if dict_get(d, string_or_empty(argvars@[1]@)) is Some { 1int } else { 0 },
        _ => 0,
    }),
{
    let present = match (&argvars[0].v_type, &argvars[0].vval) {
        (VarType::VAR_DICT, typval_vval_union::v_dict(Some(d))) => {
            let key = tv_get_string(&argvars[1]);
            tv_dict_has_key(d, key.as_slice())
        },
        _ => false,
    };
    set_number(rettv, if present { 1 } else { 0 });
}

/// The Numbers of a sequence of values, read with `tv_get_number_chk()`.
pub open spec fn item_numbers(s: Seq<TypVal>) -> Seq<int> {
    Seq::new(s.len(), |i: int| number_chk_result(s[i], false))
}

/// The largest (`domax`) or smallest of the numbers; 0 for none.
pub open spec fn extreme(s: Seq<int>, domax: bool) -> int
    decreases s.len(),
{
    if s.len() == 0 {
        0
    } else if s.len() == 1 {
        s[0]
    } else {
        let e = extreme(s.drop_last(), domax);
        let v = s.last();
        if domax { if v > e { v } else { e } } else { if v < e { v } else { e } }
    }
}

/// The values `max()`/`min()` look at: the items of a List or the values of
/// a Dict.
pub open spec fn minmax_items(a: TypVal) -> Seq<TypVal> {
    match (a.ty, a.v) {
        (VarType::VAR_LIST, VVal::List(Some(l))) => l.items,
        (VarType::VAR_DICT, VVal::Dict(Some(d))) => d.vals,
        _ => Seq::empty(),
    }
}

proof fn lemma_extreme_seq(s: Seq<int>, domax: bool)
    requires s.len() > 0,
    ensures
        s.contains(extreme(s, domax)),
        forall|k: int| 0 <= k < s.len() ==> (if domax { s[k] <= extreme(s, domax) } else { s[k] >= extreme(s, domax) }),
    decreases s.len(),
{
    if s.len() == 1 {
        assert(s[0] == extreme(s, domax));
    } else {
        let p = s.drop_last();
        lemma_extreme_seq(p, domax);
        let e = extreme(p, domax);
        let j = choose|j: int| 0 <= j < p.len() && p[j] == e;
        assert(s[j] == e);
        assert(s[s.len() - 1] == s.last());
        assert forall|k: int| 0 <= k < s.len() implies (if domax { s[k] <= extreme(s, domax) } else { s[k] >= extreme(s, domax) }) by {
            if k < s.len() - 1 { assert(s[k] == p[k]); }
        }
    }
}

/// "max()" and "min()" of a List or Dict with at least one item give one of
/// the items' Numbers, and no item's Number is above it (max) or below it
/// (min).
pub proof fn lemma_max_min_is_extreme(a: TypVal, domax: bool)
    requires minmax_items(a).len() > 0,
    ensures ({
        let nums = item_numbers(minmax_items(a));
        let r = extreme(nums, domax);
        &&& exists|k: int| 0 <= k < minmax_items(a).len() && r == number_chk_result(minmax_items(a)[k], false)
        &&& forall|k: int| 0 <= k < minmax_items(a).len() ==>
                (if domax { number_chk_result(minmax_items(a)[k], false) <= r } else { number_chk_result(minmax_items(a)[k], false) >= r })
    }),
{
    let nums = item_numbers(minmax_items(a));
    lemma_extreme_seq(nums, domax);
    let r = extreme(nums, domax);
    let j = choose|j: int| 0 <= j < nums.len() && nums[j] == r;
    assert(r == number_chk_result(minmax_items(a)[j], false));
    assert forall|k: int| 0 <= k < minmax_items(a).len() implies
        (if domax { number_chk_result(minmax_items(a)[k], false) <= r } else { number_chk_result(minmax_items(a)[k], false) >= r }) by {
        assert(nums[k] == number_chk_result(minmax_items(a)[k], false));
    }
}

fn extreme_of(items: &Vec<typval_T>, domax: bool) -> (r: varnumber_T)
    ensures r as int == extreme(item_numbers(items_view(items@)), domax),
{
    proof { lemma_items_view_index_all(items@); }
    if items.len() == 0 {
        return 0;
    }
    let mut acc = tv_get_number_chk(&items[0], None);
    let mut i: usize = 1;
    let ghost nums = item_numbers(items_view(items@));
    assert(nums.subrange(0, 1).drop_last() =~= Seq::<int>::empty());
    assert(extreme(nums.subrange(0, 1), domax) == nums[0]);
    while i < items.len()
        invariant
            1 <= i <= items@.len(),
            nums == item_numbers(items_view(items@)),
            nums.len() == items@.len(),
            forall|k: int| 0 <= k < items@.len() ==> nums[k] == number_chk_result(items@[k]@, false),
            acc as int == extreme(nums.subrange(0, i as int), domax),
        decreases items@.len() - i,
    {
        let v = tv_get_number_chk(&items[i], None);
        assert(nums.subrange(0, i + 1).drop_last() =~= nums.subrange(0, i as int));
        if domax {
            if v > acc { acc = v; }
        } else {
            if v < acc { acc = v; }
        }
        i += 1;
    }
    assert(nums.subrange(0, i as int) =~= nums);
    acc
}

fn dict_values_vec(d: &dict_T) -> (r: Vec<typval_T>)
    ensures items_view(r@) == d@.vals,
{
    proof { lemma_dict_view_parts(*d); }
    let mut out: Vec<typval_T> = Vec::new();
    let mut i: usize = 0;
    while i < d.dv_hashtab.len()
        invariant i <= d.dv_hashtab@.len(), items_view(out@) == d@.vals.subrange(0, i as int),
            d@.vals.len() == d.dv_hashtab@.len(),
            forall|k: int| 0 <= k < d.dv_hashtab@.len() ==> #[trigger] d@.vals[k] == tv_view(d.dv_hashtab@[k].di_tv),
        decreases d.dv_hashtab@.len() - i,
    {
        let x = tv_dup(&d.dv_hashtab[i].di_tv);
        proof { lemma_items_view_push(out@, x); }
        out.push(x);
        i += 1;
        assert(d@.vals.subrange(0, i as int) =~= d@.vals.subrange(0, i - 1).push(d@.vals[i - 1]));
    }
    assert(d@.vals.subrange(0, i as int) =~= d@.vals);
    out
}

fn max_min(argvars: &[typval_T], rettv: &mut typval_T, domax: bool)
    requires argvars@.len() >= 1,
    ensures final(rettv)@ == with_number(old(rettv)@, extreme(item_numbers(minmax_items(argvars@[0]@)), domax)),
{
    let n = match (&argvars[0].v_type, &argvars[0].vval) {
        (VarType::VAR_LIST, typval_vval_union::v_list(Some(l))) => extreme_of(&l.lv_items, domax),
        (VarType::VAR_DICT, typval_vval_union::v_dict(Some(d))) => {
            let vals = dict_values_vec(d);
            extreme_of(&vals, domax)
        },
        _ => {
            assert(item_numbers(Seq::<TypVal>::empty()) =~= Seq::<int>::empty());
            0
        },
    };
    set_number(rettv, n);
}

/// "max({expr})": the largest Number among the items of a List or the values
/// of a Dict; 0 when there are none.
pub fn f_max(argvars: &[typval_T], rettv: &mut typval_T)
    requires argvars@.len() >= 1,
    ensures final(rettv)@ == with_number(old(rettv)@, extreme(item_numbers(minmax_items(argvars@[0]@)), true)),
{
    max_min(argvars, rettv, true);
}

/// "min({expr})": the smallest Number among the items of a List or the
/// values of a Dict; 0 when there are none.
pub fn f_min(argvars: &[typval_T], rettv: &mut typval_T)
    requires argvars@.len() >= 1,
    ensures final(rettv)@ == with_number(old(rettv)@, extreme(item_numbers(minmax_items(argvars@[0]@)), false)),
{
    max_min(argvars, rettv, false);
}

/// Where `index()` starts looking in a Blob of `len` bytes: the Number
/// truncated to 32 bits, counted from the end when negative (not below 0).
pub open spec fn blob_index_start(n: int, len: int) -> int {
    let s = (n as i32) as int;
    if s < 0 { if len + s > 0 { len + s } else { 0 } } else { s }
}

/// The first index from `i` on of a byte of `b` equal to `needle`, or -1.
pub open spec fn first_byte_from(b: Seq<u8>, needle: TypVal, i: int) -> int
    decreases b.len() - i,
{
    if i >= b.len() { -1 } else if tv_equal_spec(num_tv(b[i] as int), needle, false) { i } else { first_byte_from(b, needle, i + 1) }
}

/// The first index from `i` on of an item equal to `needle`, or -1.
pub open spec fn first_item_from(items: Seq<TypVal>, needle: TypVal, ic: bool, i: int) -> int
    decreases items.len() - i,
{
    if i >= items.len() { -1 } else if tv_equal_spec(items[i], needle, ic) { i } else { first_item_from(items, needle, ic, i + 1) }
}

/// What `index()` returns.
pub open spec fn index_spec(args: Seq<typval_T>) -> int {
    let a = args[0]@;
    let needle = args[1]@;
    let snum = if args.len() > 2 { number_chk_result(args[2]@, true) } else { 0 };
    match (a.ty, a.v) {
        (VarType::VAR_BLOB, VVal::Blob(Some(b))) => first_byte_from(b.bytes, needle, blob_index_start(snum, b.bytes.len() as int)),
        (VarType::VAR_LIST, VVal::List(Some(l))) => {
            let len = l.items.len() as int;
            let st = if snum < 0 { snum + len } else { snum };
            let ic = args.len() > 3 && number_chk_result(args[3]@, true) != 0;
            if args.len() > 2 && (st < 0 || st >= len) { -1 }
            else { first_item_from(l.items, needle, ic, if args.len() > 2 { st } else { 0 }) }
        },
        _ => -1,
    }
}

/// "index({object}, {expr} [, {start} [, {ic}]])": the index of the first
/// item of a List (from `{start}`, comparing with `{ic}`) or byte of a Blob
/// that equals `{expr}`; -1 when there is none or the start is out of range.
#[verifier::loop_isolation(false)]
pub fn f_index(argvars: &[typval_T], rettv: &mut typval_T)
    requires
        argvars@.len() >= 2,
        argvars@[0]@.v is Blob && argvars@[0]@.v->Blob_0 is Some ==> argvars@[0]@.v->Blob_0->Some_0.bytes.len() <= i32::MAX,
        argvars@[0]@.v is List && argvars@[0]@.v->List_0 is Some ==> argvars@[0]@.v->List_0->Some_0.items.len() <= i32::MAX,
    ensures final(rettv)@ == with_number(old(rettv)@, index_spec(argvars@)),
{
    set_number(rettv, -1);
    let needle = &argvars[1];
    if argvars[0].v_type == VarType::VAR_BLOB {
        if let typval_vval_union::v_blob(Some(b)) = &argvars[0].vval {
            let len = tv_blob_len(b);
            let sn: varnumber_T = if argvars.len() > 2 { tv_get_number(&argvars[2]) } else { 0 };
            let mut start: i32 = sn as i32;
            if start < 0 {
                start = if len + start > 0 { len + start } else { 0 };
            }
            let mut idx: i32 = start;
            while idx < len
                invariant
                    start <= idx, start >= 0, len as int == b@.bytes.len(),
                    first_byte_from(b@.bytes, needle@, start as int) == first_byte_from(b@.bytes, needle@, idx as int),
                    rettv@ == with_number(old(rettv)@, -1),
                decreases len - idx,
            {
                let t = number_tv(tv_blob_get(b, idx) as varnumber_T);
                if tv_equal(&t, needle, false) {
                    set_number(rettv, idx as varnumber_T);
                    return;
                }
                idx += 1;
            }
            return;
        }
        return;
    }
    match (&argvars[0].v_type, &argvars[0].vval) {
        (VarType::VAR_LIST, typval_vval_union::v_list(Some(l))) => {
            proof { lemma_items_view_index_all(l.lv_items@); }
            let len = l.lv_items.len();
            let mut start: usize = 0;
            if argvars.len() > 2 {
                let n = tv_get_number(&argvars[2]);
                if n < 0 {
                    if (len as u64) >= ((0 - (n as i128)) as u64) {
                        start = len - ((0 - (n as i128)) as usize);
                        if start >= len {
                            return;
                        }
                    } else {
                        return;
                    }
                } else if (n as u64) < (len as u64) {
                    start = n as usize;
                } else {
                    return;
                }
            }
            let ic = argvars.len() > 3 && tv_get_number(&argvars[3]) != 0;
            let mut i: usize = start;
            while i < len
                invariant
                    start <= i <= len, len == l.lv_items@.len(), l@.items.len() == len,
                    forall|k: int| 0 <= k < len ==> #[trigger] l@.items[k] == l.lv_items@[k]@,
                    first_item_from(l@.items, needle@, ic, start as int) == first_item_from(l@.items, needle@, ic, i as int),
                    rettv@ == with_number(old(rettv)@, -1),
                decreases len - i,
            {
                if tv_equal(&l.lv_items[i], needle, ic) {
                    set_number(rettv, i as varnumber_T);
                    return;
                }
                i += 1;
            }
        },
        _ => {},
    }
}

/// "and({expr}, {expr})": bitwise AND of two Numbers.
pub fn f_and(argvars: &[typval_T], rettv: &mut typval_T)
    requires argvars@.len() >= 2,
    ensures final(rettv)@ == with_number(old(rettv)@,
        ((number_chk_result(argvars@[0]@, false) as i64) & (number_chk_result(argvars@[1]@, false) as i64)) as int),
{
    let a = tv_get_number_chk(&argvars[0], None);
    let b = tv_get_number_chk(&argvars[1], None);
    set_number(rettv, a & b);
}

/// "or({expr}, {expr})": bitwise OR of two Numbers.
pub fn f_or(argvars: &[typval_T], rettv: &mut typval_T)
    requires argvars@.len() >= 2,
    ensures final(rettv)@ == with_number(old(rettv)@,
        ((number_chk_result(argvars@[0]@, false) as i64) | (number_chk_result(argvars@[1]@, false) as i64)) as int),
{
    let a = tv_get_number_chk(&argvars[0], None);
    let b = tv_get_number_chk(&argvars[1], None);
    set_number(rettv, a | b);
}

/// "xor({expr}, {expr})": bitwise XOR of two Numbers.
pub fn f_xor(argvars: &[typval_T], rettv: &mut typval_T)
    requires argvars@.len() >= 2,
    ensures final(rettv)@ == with_number(old(rettv)@,
        ((number_chk_result(argvars@[0]@, false) as i64) ^ (number_chk_result(argvars@[1]@, false) as i64)) as int),
{
    let a = tv_get_number_chk(&argvars[0], None);
    let b = tv_get_number_chk(&argvars[1], None);
    set_number(rettv, a ^ b);
}

/// "invert({expr})": bitwise NOT of a Number.
pub fn f_invert(argvars: &[typval_T], rettv: &mut typval_T)
    requires argvars@.len() >= 1,
    ensures final(rettv)@ == with_number(old(rettv)@, (!(number_chk_result(argvars@[0]@, false) as i64)) as int),
{
    let a = tv_get_number_chk(&argvars[0], None);
    set_number(rettv, !a);
}

/// The error `insert()` reports: for a Blob, E475 with the index or the
/// value that is out of range; for a List, E684 with an index out of range;
/// E897 when the first argument is neither.
pub open spec fn insert_error(args: Seq<typval_T>) -> Option<Seq<u8>> {
    let a = args[0]@;
    let has_before = args.len() > 2 && args[2].v_type != VarType::VAR_UNKNOWN;
    let before = if has_before { number_chk_result(args[2]@, false) } else { 0 };
    let val = number_chk_result(args[1]@, false);
    if a.ty == VarType::VAR_BLOB {
        match a.v {
            VVal::Blob(Some(b)) =>
                if before < 0 || before > b.bytes.len() { Some(msg_e475() + string_or_empty(args[2]@)) }
                else if val < 0 || val > 255 { Some(msg_e475() + string_or_empty(args[1]@)) }
                else { None },
            _ => None,
        }
    } else if a.ty == VarType::VAR_LIST {
        match a.v {
            VVal::List(Some(l)) => {
                let len = l.items.len() as int;
                let idx = if before < 0 { before + len } else { before };
                if before != len && (idx < 0 || idx >= len) { Some(msg_e684_upper() + nr2str(before)) } else { None }
            },
            _ => None,
        }
    } else {
        Some(msg_e897())
    }
}

/// "insert({object}, {item} [, {idx}])": insert `{item}` before index
/// `{idx}` (default 0, negative counts from the end, the length appends) of
/// a List, or the byte `{item}` into a Blob; the result is the changed
/// object. An index out of range, a byte value outside 0..255, or any other
/// first argument changes nothing.
pub fn f_insert(argvars: &mut Vec<typval_T>, rettv: &mut typval_T, errs: &mut Vec<Vec<u8>>)
    requires
        old(argvars)@.len() >= 2,
        old(argvars)@[0]@.v is List && old(argvars)@[0]@.v->List_0 is Some ==> old(argvars)@[0]@.v->List_0->Some_0.items.len() <= i32::MAX,
    ensures ({
        let a = old(argvars)@[0]@;
        let has_before = old(argvars)@.len() > 2 && old(argvars)@[2].v_type != VarType::VAR_UNKNOWN;
        let before = if has_before { number_chk_result(old(argvars)@[2]@, false) } else { 0 };
        let val = number_chk_result(old(argvars)@[1]@, false);
        match (a.ty, a.v) {
            (VarType::VAR_BLOB, VVal::Blob(Some(b))) =>
                if before < 0 || before > b.bytes.len() || val < 0 || val > 255 {
                    final(argvars)@ == old(argvars)@ && final(rettv)@ == old(rettv)@
                } else {
                    let nb = blob_with_bytes(a, b, b.bytes.insert(before, val as u8));
                    first_arg_set(old(argvars)@, final(argvars)@, nb) && final(rettv)@ == nb
                },
            (VarType::VAR_LIST, VVal::List(Some(l))) => {
                let len = l.items.len() as int;
                let idx = if before < 0 { before + len } else { before };
                if before != len && (idx < 0 || idx >= len) {
                    final(argvars)@ == old(argvars)@ && final(rettv)@ == old(rettv)@
                } else {
                    let at = if idx < 0 { 0 } else if idx > len { len } else { idx };
                    let nl = list_with_items(a, l, l.items.insert(at, old(argvars)@[1]@));
                    first_arg_set(old(argvars)@, final(argvars)@, nl) && final(rettv)@ == nl
                }
            },
            (VarType::VAR_LIST, _) => final(argvars)@ == old(argvars)@ && final(rettv)@ == a,
            _ => final(argvars)@ == old(argvars)@ && final(rettv)@ == old(rettv)@,
        }
    }),
    msgs_view(final(errs)@) == after_report(old(errs)@, insert_error(old(argvars)@)),
{
    let has_before = argvars.len() > 2 && argvars[2].v_type != VarType::VAR_UNKNOWN;
    let before: varnumber_T = if has_before { tv_get_number_chk(&argvars[2], None) } else { 0 };
    if argvars[0].v_type == VarType::VAR_BLOB {
        if let typval_vval_union::v_blob(Some(b0)) = &argvars[0].vval {
            let len = b0.bv_ga.len();
            if before < 0 || (before as u64) > (len as u64) {
                let mut m = msg_e475_exec();
                let s = tv_get_string(&argvars[2]);
                append_bytes(&mut m, s.as_slice());
                emsg(errs, m);
                return;
            }
            let val = tv_get_number_chk(&argvars[1], None);
            if val < 0 || val > 255 {
                let mut m = msg_e475_exec();
                let s = tv_get_string(&argvars[1]);
                append_bytes(&mut m, s.as_slice());
                emsg(errs, m);
                return;
            }
            let mut a0 = tv_dup(&argvars[0]);
            if let typval_vval_union::v_blob(Some(b)) = &mut a0.vval {
                b.bv_ga.insert(before as usize, val as u8);
            }
            *rettv = tv_dup(&a0);
            replace_first(argvars, a0);
            return;
        }
    }
    if argvars[0].v_type != VarType::VAR_LIST {
        if argvars[0].v_type != VarType::VAR_BLOB {
            emsg(errs, msg_e897_exec());
        }
        return;
    }
    match &argvars[0].vval {
        typval_vval_union::v_list(Some(l0)) => {
            proof { lemma_items_view_index_all(l0.lv_items@); }
            let len = l0.lv_items.len();
            let lenn = len as i64;
            let idx: i128 = if before < 0 { before as i128 + lenn as i128 } else { before as i128 };
            if before != lenn && (idx < 0 || idx >= lenn as i128) {
                let mut m = msg_e684_upper_exec();
                let s = nr2bytes(before);
                append_bytes(&mut m, s.as_slice());
                emsg(errs, m);
                return;
            }
            let at: usize = if idx < 0 { 0 } else if idx > lenn as i128 { len } else { idx as usize };
            let item = tv_dup(&argvars[1]);
            let mut a0 = tv_dup(&argvars[0]);
            if let typval_vval_union::v_list(Some(l)) = &mut a0.vval {
                proof { lemma_items_view_index_all(l.lv_items@); lemma_items_view_insert(l.lv_items@, at as int, item); }
                l.lv_items.insert(at, item);
            }
            *rettv = tv_dup(&a0);
            replace_first(argvars, a0);
        },
        _ => {
            *rettv = tv_dup(&argvars[0]);
        },
    }
}

/// `d` after setting the first `n` entries of `keys`/`vals` in order.
pub open spec fn dict_set_all(d: DictVal, keys: Seq<Seq<u8>>, vals: Seq<TypVal>, n: int) -> DictVal
    decreases n,
{
    if n <= 0 { d } else { dict_set(dict_set_all(d, keys, vals, n - 1), keys[n - 1], vals[n - 1]) }
}

/// Setting distinct keys one after the other into an empty Dict gives those
/// keys and values in that order.
pub proof fn lemma_dict_set_all_unique(keys: Seq<Seq<u8>>, vals: Seq<TypVal>, n: int)
    requires 0 <= n <= keys.len(), keys.len() == vals.len(), keys_unique(keys),
    ensures dict_set_all(empty_dict_val(), keys, vals, n) == (DictVal { keys: keys.subrange(0, n), vals: vals.subrange(0, n), ..empty_dict_val() }),
    decreases n,
{
    if n > 0 {
        lemma_dict_set_all_unique(keys, vals, n - 1);
        let prev = keys.subrange(0, n - 1);
        lemma_dict_index_of(prev, keys[n - 1]);
        assert(prev.push(keys[n - 1]) =~= keys.subrange(0, n));
        assert(vals.subrange(0, n - 1).push(vals[n - 1]) =~= vals.subrange(0, n));
    } else {
        assert(keys.subrange(0, 0) =~= Seq::<Seq<u8>>::empty());
        assert(vals.subrange(0, 0) =~= Seq::<TypVal>::empty());
    }
}

fn dict_copy_entries(d: &dict_T) -> (r: dict_T)
    ensures r@ == dict_set_all(empty_dict_val(), d@.keys, d@.vals, d@.keys.len() as int),
{
    proof { lemma_dict_view_parts(*d); }
    let mut out = tv_dict_alloc();
    let mut i: usize = 0;
    while i < d.dv_hashtab.len()
        invariant
            i <= d.dv_hashtab@.len(),
            d@.keys.len() == d.dv_hashtab@.len(), d@.vals.len() == d.dv_hashtab@.len(),
            forall|k: int| 0 <= k < d.dv_hashtab@.len() ==> #[trigger] d@.keys[k] == d.dv_hashtab@[k].di_key@,
            forall|k: int| 0 <= k < d.dv_hashtab@.len() ==> #[trigger] d@.vals[k] == tv_view(d.dv_hashtab@[k].di_tv),
            out@ == dict_set_all(empty_dict_val(), d@.keys, d@.vals, i as int),
        decreases d.dv_hashtab@.len() - i,
    {
        let v = tv_dup(&d.dv_hashtab[i].di_tv);
        tv_dict_add_tv(&mut out, d.dv_hashtab[i].di_key.as_slice(), v);
        i += 1;
    }
    out
}

/// "copy({expr})": a shallow copy. A List or Dict becomes a new container
/// holding the same items (a Dict's entries set one after the other); any
/// other value is returned as it is.
pub fn f_copy(argvars: &[typval_T], rettv: &mut typval_T)
    requires argvars@.len() >= 1,
    ensures ({
        let a = argvars@[0]@;
        match (a.ty, a.v) {
            (VarType::VAR_LIST, VVal::List(Some(l))) => final(rettv)@ == with_list(old(rettv)@, l.items),
            (VarType::VAR_DICT, VVal::Dict(Some(d))) => final(rettv)@ == (TypVal { ty: VarType::VAR_DICT,
                v: VVal::Dict(Some(dict_set_all(empty_dict_val(), d.keys, d.vals, d.keys.len() as int))), ..old(rettv)@ }),
            _ => final(rettv)@ == a,
        }
    }),
{
    match (&argvars[0].v_type, &argvars[0].vval) {
        (VarType::VAR_LIST, typval_vval_union::v_list(Some(l))) => {
            let items = items_dup(&l.lv_items);
            proof { lemma_items_view_ext(items@, l.lv_items@); }
            set_list(rettv, list_from_items(items));
        },
        (VarType::VAR_DICT, typval_vval_union::v_dict(Some(d))) => {
            let nd = dict_copy_entries(d);
            rettv.v_type = VarType::VAR_DICT;
            rettv.vval = typval_vval_union::v_dict(Some(nd));
        },
        _ => {
            *rettv = tv_dup(&argvars[0]);
        },
    }
}

/// "deepcopy({expr})": a copy in which Lists and Dicts are copied all the way
/// down.
pub fn f_deepcopy(argvars: &[typval_T], rettv: &mut typval_T)
    requires argvars@.len() >= 1,
    ensures final(rettv)@ == deep_copy_spec(argvars@[0]@),
{
    *rettv = var_item_copy(&argvars[0]);
}

/// "escape({string}, {chars})": `{string}` with a backslash before each
/// single-byte character that occurs in `{chars}`.
pub fn f_escape(argvars: &[typval_T], rettv: &mut typval_T)
    requires argvars@.len() >= 2,
    ensures final(rettv)@ == with_string(old(rettv)@, escape_spec(string_or_empty(argvars@[0]@), string_or_empty(argvars@[1]@))),
{
    let s = tv_get_string(&argvars[0]);
    let esc = tv_get_string(&argvars[1]);
    let r = escape_bytes(s.as_slice(), esc.as_slice());
    set_string(rettv, r);
}

/// Whether a code point is a Unicode scalar value.
pub open spec fn is_scalar(c: int) -> bool {
    (0 <= c < 0xd800) || (0xe000 <= c <= 0x10ffff)
}

/// The String `list2str()` builds from Numbers: each Number, cut to its low 32
/// bits, that is a Unicode scalar value adds its character; a zero Number
/// ends the string.
pub open spec fn list2str_spec(items: Seq<TypVal>) -> Seq<u8>
    decreases items.len(),
{
    if items.len() == 0 {
        Seq::empty()
    } else {
        let n = number_chk_result(items[0], false);
        let c = (n as u32) as int;
        if n == 0 {
            Seq::empty()
        } else {
            (if is_scalar(c) { char2bytes(c) } else { Seq::empty() }) + list2str_spec(items.subrange(1, items.len() as int))
        }
    }
}

/// "list2str({list})": a String from a List of code points.
pub fn f_list2str(argvars: &[typval_T], rettv: &mut typval_T)
    requires argvars@.len() >= 1,
    ensures final(rettv)@ == with_string(old(rettv)@, match (argvars@[0]@.ty, argvars@[0]@.v) {
        (VarType::VAR_LIST, VVal::List(Some(l))) => list2str_spec(l.items),
        _ => Seq::empty(),
    }),
{
    let mut out: Vec<u8> = Vec::new();
    match (&argvars[0].v_type, &argvars[0].vval) {
        (VarType::VAR_LIST, typval_vval_union::v_list(Some(l))) => {
            proof { lemma_items_view_index_all(l.lv_items@); }
            let ghost items = l@.items;
            let mut i: usize = 0;
            let mut done = false;
            assert(items.subrange(0, items.len() as int) =~= items);
            while i < l.lv_items.len() && !done
                invariant
                    i <= l.lv_items@.len(), items.len() == l.lv_items@.len(), items == l@.items,
                    forall|k: int| 0 <= k < items.len() ==> #[trigger] items[k] == l.lv_items@[k]@,
                    done ==> list2str_spec(items) == out@,
                    !done ==> list2str_spec(items) == out@ + list2str_spec(items.subrange(i as int, items.len() as int)),
                decreases l.lv_items@.len() - i + (if done { 0int } else { 1int }),
            {
                let ghost rest = items.subrange(i as int, items.len() as int);
                assert(rest.subrange(1, rest.len() as int) =~= items.subrange(i + 1, items.len() as int));
                let n = tv_get_number_chk(&l.lv_items[i], None);
                if n == 0 {
                    assert(out@ + Seq::<u8>::empty() =~= out@);
                    done = true;
                } else {
                    let c: u32 = n as u32;
                    let ghost before = out@;
                    if c < 0xd800 || (0xe000 <= c && c <= 0x10ffff) {
                        let cb = char_to_bytes(c);
                        append_bytes(&mut out, cb.as_slice());
                    }
                    assert(before + ((if is_scalar(c as int) { char2bytes(c as int) } else { Seq::empty() })
                        + list2str_spec(items.subrange(i + 1, items.len() as int)))
                        =~= out@ + list2str_spec(items.subrange(i + 1, items.len() as int)));
                    i += 1;
                }
            }
            proof {
                if !done {
                    assert(items.subrange(i as int, items.len() as int) =~= Seq::<TypVal>::empty());
                    assert(out@ + Seq::<u8>::empty() =~= out@);
                }
            }
        },
        _ => {},
    }
    set_string(rettv, out);
}

fn flatten_common(argvars: &mut Vec<typval_T>, rettv: &mut typval_T, make_copy: bool)
    requires
        old(argvars)@.len() >= 1,
        old(argvars)@[0]@.v is List && old(argvars)@[0]@.v->List_0 is Some ==>
            old(argvars)@[0]@.v->List_0->Some_0.items.len() <= i32::MAX
            && old(argvars)@[0]@.v->List_0->Some_0.refcount < i32::MAX,
    ensures flatten_spec(old(argvars)@, final(argvars)@, old(rettv)@, final(rettv)@, make_copy),
{
    if argvars[0].v_type != VarType::VAR_LIST {
        return;
    }
    let maxdepth: varnumber_T = if argvars.len() < 2 {
        999999
    } else {
        let mut error = false;
        let d = tv_get_number_chk(&argvars[1], Some(&mut error));
        if error {
            return;
        }
        if d < 0 {
            return;
        }
        d
    };
    rettv.v_type = VarType::VAR_LIST;
    let mut a0 = tv_dup(&argvars[0]);
    match &mut a0.vval {
        typval_vval_union::v_list(Some(l)) => {
            proof { lemma_items_view_index_all(l.lv_items@); }
            let len = l.lv_items.len() as i64;
            if make_copy {
                let mut nl = tv_list_copy(l, false);
                tv_list_flatten(&mut nl, len, maxdepth);
                rettv.vval = typval_vval_union::v_list(Some(nl));
            } else {
                tv_list_ref(l);
                tv_list_flatten(l, len, maxdepth);
                rettv.vval = typval_vval_union::v_list(Some(list_dup(l)));
                replace_first(argvars, a0);
            }
        },
        _ => {
            rettv.vval = typval_vval_union::v_list(None);
        },
    }
}

/// The maximum depth `flatten()` uses, or `None` when the argument is bad
/// (not a Number, or negative).
pub open spec fn flatten_depth(args: Seq<typval_T>) -> Option<int> {
    if args.len() < 2 {
        Some(999999)
    } else {
        match number_of(args[1]@) {
            Some(d) => if d < 0 { None } else { Some(d) },
            None => None,
        }
    }
}

/// What `flatten()` (in place) and `flattennew()` (on a copy) do.
pub open spec fn flatten_spec(oa: Seq<typval_T>, na: Seq<typval_T>, or: TypVal, nr: TypVal, make_copy: bool) -> bool {
    let a = oa[0]@;
    if a.ty != VarType::VAR_LIST || flatten_depth(oa) is None {
        na == oa && nr == or
    } else {
        let d = flatten_depth(oa)->Some_0;
        match a.v {
            VVal::List(Some(l)) => {
                let flat = flat_all(if make_copy { unlock_all(l.items) } else { l.items }, l.items.len() as int, d, false);
                if make_copy {
                    na == oa && nr == (TypVal { ty: VarType::VAR_LIST, v: VVal::List(Some(ListVal { items: flat, ..empty_list_val() })), ..or })
                } else {
                    let nl = ListVal { items: flat, refcount: l.refcount + 1, ..l };
                    first_arg_set(oa, na, TypVal { v: VVal::List(Some(nl)), ..a })
                        && nr == (TypVal { ty: VarType::VAR_LIST, v: VVal::List(Some(nl)), ..or })
                }
            },
            _ => na == oa && nr == (TypVal { ty: VarType::VAR_LIST, v: VVal::List(None), ..or }),
        }
    }
}

/// "flatten({list} [, {maxdepth}])": flatten a List in place, down to
/// `{maxdepth}` levels (default 999999); the result is the changed List.
pub fn f_flatten(argvars: &mut Vec<typval_T>, rettv: &mut typval_T)
    requires
        old(argvars)@.len() >= 1,
        old(argvars)@[0]@.v is List && old(argvars)@[0]@.v->List_0 is Some ==>
            old(argvars)@[0]@.v->List_0->Some_0.items.len() <= i32::MAX
            && old(argvars)@[0]@.v->List_0->Some_0.refcount < i32::MAX,
    ensures flatten_spec(old(argvars)@, final(argvars)@, old(rettv)@, final(rettv)@, false),
{
    flatten_common(argvars, rettv, false);
}

/// "flattennew({list} [, {maxdepth}])": a flattened copy of a List.
pub fn f_flattennew(argvars: &mut Vec<typval_T>, rettv: &mut typval_T)
    requires
        old(argvars)@.len() >= 1,
        old(argvars)@[0]@.v is List && old(argvars)@[0]@.v->List_0 is Some ==>
            old(argvars)@[0]@.v->List_0->Some_0.items.len() <= i32::MAX
            && old(argvars)@[0]@.v->List_0->Some_0.refcount < i32::MAX,
    ensures flatten_spec(old(argvars)@, final(argvars)@, old(rettv)@, final(rettv)@, true),
{
    flatten_common(argvars, rettv, true);
}

/// The two builtins undo each other on characters: for `n` from 1 to
/// U+10FFFF, "char2nr()" of the String that "nr2char(n)" stores is `n`, and
/// "nr2char()" of that Number is the same String again.
pub proof fn lemma_nr2char_char2nr(r: TypVal, n: int)
    requires 1 <= n <= 0x10FFFF,
    ensures ({
        let s = string_or_empty(with_string(r, char2bytes(n)));
        &&& first_char_code(s) == n
        &&& char2bytes(first_char_code(s)) == s
    }),
{
    lemma_char2nr_nr2char(n);
}

/// "char2nr(nr2char(n))" gives `n` back for every character code from 1 to
/// U+10FFFF: the bytes "nr2char()" writes decode to the code they encode.
pub proof fn lemma_char2nr_nr2char(c: int)
    requires 1 <= c <= 0x10FFFF,
    ensures first_char_code(char2bytes(c)) == c,
{
    let s = char2bytes(c);
    if c < 0x80 {
        assert(s.len() == 1 && s[0] == c as u8);
        assert(char_len_at(s, 0) == 1);
        assert(s.subrange(0, 1) =~= s);
    } else if c < 0x800 {
        let a = c / 64;
        let b = c % 64;
        assert(c == a * 64 + b && 0 <= b < 64) by (nonlinear_arith) requires 0x80 <= c < 0x800, a == c / 64, b == c % 64;
        assert(2 <= a < 32) by (nonlinear_arith) requires 0x80 <= c < 0x800, a == c / 64;
        assert(s[0] as int == 0xc0 + a && s[1] as int == 0x80 + b);
        assert(char_len_at(s, 0) == 2);
        assert(s.subrange(0, 2) =~= s);
    } else if c < 0x10000 {
        let a = c / 4096;
        let m = (c / 64) % 64;
        let b = c % 64;
        assert(c == a * 4096 + m * 64 + b && 0 <= m < 64 && 0 <= b < 64 && 0 <= a < 16) by (nonlinear_arith)
            requires 0x800 <= c < 0x10000, a == c / 4096, m == (c / 64) % 64, b == c % 64;
        assert(s[0] as int == 0xe0 + a && s[1] as int == 0x80 + m && s[2] as int == 0x80 + b);
        assert(char_len_at(s, 0) == 3);
        assert(s.subrange(0, 3) =~= s);
    } else {
        let a = c / 262144;
        let h = (c / 4096) % 64;
        let m = (c / 64) % 64;
        let b = c % 64;
        assert(c == a * 262144 + h * 4096 + m * 64 + b && 0 <= h < 64 && 0 <= m < 64 && 0 <= b < 64 && 0 <= a <= 4) by (nonlinear_arith)
            requires 0x10000 <= c <= 0x10FFFF, a == c / 262144, h == (c / 4096) % 64, m == (c / 64) % 64, b == c % 64;
        assert(s[0] as int == 0xf0 + a && s[1] as int == 0x80 + h && s[2] as int == 0x80 + m && s[3] as int == 0x80 + b);
        assert(char_len_at(s, 0) == 4);
        assert(s.subrange(0, 4) =~= s);
    }
}

} // verus!
