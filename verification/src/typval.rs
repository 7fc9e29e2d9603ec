//! Value accessors and container operations.
use vstd::prelude::*;
use crate::typval_defs::{
    varnumber_T, OK, FAIL, VarType, VarLockStatus, BoolVarValue, SpecialVarValue, typval_vval_union,
    typval_T, list_T, dict_T, dictitem_T, blob_T, partial_T, Callback, DictWatcher, TypVal, VVal,
    ListVal, DictVal, BlobVal, CallbackVal, WatcherVal, tv_view, list_view, dict_view, items_view, dict_index_of,
    mk_tv, num_tv, str_tv, list_tv, blob_tv, dict_tv, empty_dict_val, dict_wf, keys_unique,
    lemma_items_view_ext, lemma_items_view_index,
};
use crate::charset::{nr2str, nr2bytes, str2nr, str2nr_all};
use crate::dup::{bytes_dup, tv_dup, list_dup, dict_dup, blob_dup, items_dup, slice_to_vec, callback_dup};

verus! {

broadcast use vstd::std_specs::vec::axiom_vec_index_decreases;

// ── Number / String views of a value ──

/// The Number a value converts to, or `None` when the conversion is an error.
pub open spec fn number_of(t: TypVal) -> Option<int> {
    match t.ty {
        VarType::VAR_NUMBER => match t.v { VVal::Number(n) => Some(n), _ => None },
        VarType::VAR_STRING => match t.v { VVal::Str(s) => Some(str2nr(s)), _ => Some(0) },
        VarType::VAR_BOOL => match t.v {
            VVal::Bool(b) => Some(if b == BoolVarValue::kBoolVarTrue { 1 } else { 0 }),
            _ => None,
        },
        VarType::VAR_SPECIAL => Some(0),
        _ => None,
    }
}

/// What `tv_get_number_chk` returns.
pub open spec fn number_chk_result(t: TypVal, has_sink: bool) -> int {
    match number_of(t) {
        Some(n) => n,
        None => if has_sink { 0 } else { -1 },
    }
}

/// The String a value converts to, or `None` when the conversion is an error.
/// A Float has no rendering here.
pub open spec fn string_of(t: TypVal) -> Option<Seq<u8>> {
    match (t.ty, t.v) {
        (VarType::VAR_NUMBER, VVal::Number(n)) => Some(nr2str(n)),
        (VarType::VAR_STRING, VVal::Str(s)) => Some(s),
        (VarType::VAR_FUNC, VVal::Str(s)) => Some(s),
        (VarType::VAR_BOOL, VVal::Bool(b)) => Some(if b == BoolVarValue::kBoolVarTrue { seq![118u8, 58, 116, 114, 117, 101] } else { seq![118u8, 58, 102, 97, 108, 115, 101] }),
        (VarType::VAR_SPECIAL, _) => Some(seq![118u8, 58, 110, 117, 108, 108]),
        _ => None,
    }
}

/// `tv_get_string()`: the String of a value, empty on error.
pub open spec fn string_or_empty(t: TypVal) -> Seq<u8> {
    match string_of(t) { Some(s) => s, None => Seq::empty() }
}

/// The Number value of `tv`. On a type error
/// the result is 0 and `*ret_error` is set when a sink is given, else -1.
pub fn tv_get_number_chk(tv: &typval_T, ret_error: Option<&mut bool>) -> (r: varnumber_T)
    ensures
        r as int == number_chk_result(tv@, ret_error is Some),
        match ret_error {
            Some(e) => *final(e) == (number_of(tv@) is None || *e),
            None => true,
        },
{
    match tv.v_type {
        VarType::VAR_NUMBER => {
            if let typval_vval_union::v_number(n) = &tv.vval {
                return *n;
            }
        },
        VarType::VAR_STRING => {
            let mut n: varnumber_T = 0;
            if let typval_vval_union::v_string(s) = &tv.vval {
                n = str2nr_all(s.as_slice());
            }
            return n;
        },
        VarType::VAR_BOOL => {
            if let typval_vval_union::v_bool(b) = &tv.vval {
                return if *b == BoolVarValue::kBoolVarTrue { 1 } else { 0 };
            }
        },
        VarType::VAR_SPECIAL => {
            return 0;
        },
        _ => {},
    }
    match ret_error {
        Some(e) => {
            *e = true;
            0
        },
        None => -1,
    }
}

/// `tv_get_number_chk` with no error sink.
pub fn tv_get_bool(tv: &typval_T) -> (r: varnumber_T)
    ensures r as int == number_chk_result(tv@, false),
{
    tv_get_number_chk(tv, None)
}

/// The Number value of `tv`, 0 on a type error.
pub fn tv_get_number(tv: &typval_T) -> (r: varnumber_T)
    ensures r as int == number_chk_result(tv@, true),
{
    let mut error = false;
    tv_get_number_chk(tv, Some(&mut error))
}

/// Alias of `tv_get_number_chk`.
pub fn tv_get_bool_chk(tv: &typval_T, ret_error: Option<&mut bool>) -> (r: varnumber_T)
    ensures
        r as int == number_chk_result(tv@, ret_error is Some),
        match ret_error {
            Some(e) => *final(e) == (number_of(tv@) is None || *e),
            None => true,
        },
{
    tv_get_number_chk(tv, ret_error)
}

/// The String value of `tv`; Number in
/// decimal, Bool as `v:true`/`v:false`, Special as `v:null`; `None` for a
/// List, Dict, Blob, Partial or Float.
pub fn tv_get_string_buf_chk(tv: &typval_T) -> (r: Option<Vec<u8>>)
    ensures
        match string_of(tv@) {
            Some(s) => r is Some && r->Some_0@ == s,
            None => r is None,
        },
{
    match (&tv.v_type, &tv.vval) {
        (VarType::VAR_NUMBER, typval_vval_union::v_number(n)) => Some(nr2bytes(*n)),
        (VarType::VAR_STRING, typval_vval_union::v_string(s)) => Some(bytes_dup(s)),
        (VarType::VAR_FUNC, typval_vval_union::v_string(s)) => Some(bytes_dup(s)),
        (VarType::VAR_BOOL, typval_vval_union::v_bool(b)) => {
            if *b == BoolVarValue::kBoolVarTrue {
                Some(vec![118u8, 58, 116, 114, 117, 101])
            } else {
                Some(vec![118u8, 58, 102, 97, 108, 115, 101])
            }
        },
        (VarType::VAR_SPECIAL, _) => Some(vec![118u8, 58, 110, 117, 108, 108]),
        _ => None,
    }
}

/// Same as `tv_get_string_buf_chk`.
pub fn tv_get_string_chk(tv: &typval_T) -> (r: Option<Vec<u8>>)
    ensures
        match string_of(tv@) {
            Some(s) => r is Some && r->Some_0@ == s,
            None => r is None,
        },
{
    tv_get_string_buf_chk(tv)
}

/// The String value of `tv`, empty on error.
pub fn tv_get_string(tv: &typval_T) -> (r: Vec<u8>)
    ensures r@ == string_or_empty(tv@),
{
    match tv_get_string_buf_chk(tv) {
        Some(s) => s,
        None => Vec::new(),
    }
}

/// Like `tv_get_string`.
pub fn tv_get_string_buf(tv: &typval_T) -> (r: Vec<u8>)
    ensures r@ == string_or_empty(tv@),
{
    tv_get_string(tv)
}


// ── equality ──

/// A Float bit pattern is a NaN.
pub open spec fn float_is_nan(b: u64) -> bool {
    (b & 0x7ff0_0000_0000_0000u64) == 0x7ff0_0000_0000_0000u64 && (b & 0x000f_ffff_ffff_ffffu64) != 0
}

/// Two Float bit patterns are equal doubles (`+0 == -0`, NaN equals nothing).
pub open spec fn float_eq(a: u64, b: u64) -> bool {
    !float_is_nan(a) && !float_is_nan(b) && (a == b || ((a & 0x7fff_ffff_ffff_ffffu64) == 0 && (b & 0x7fff_ffff_ffff_ffffu64) == 0))
}

fn float_eq_exec(a: u64, b: u64) -> (r: bool)
    ensures r == float_eq(a, b),
{
    let a_nan = (a & 0x7ff0_0000_0000_0000u64) == 0x7ff0_0000_0000_0000u64 && (a & 0x000f_ffff_ffff_ffffu64) != 0;
    let b_nan = (b & 0x7ff0_0000_0000_0000u64) == 0x7ff0_0000_0000_0000u64 && (b & 0x000f_ffff_ffff_ffffu64) != 0;
    !a_nan && !b_nan && (a == b || ((a & 0x7fff_ffff_ffff_ffffu64) == 0 && (b & 0x7fff_ffff_ffff_ffffu64) == 0))
}

pub open spec fn is_func_type(t: VarType) -> bool {
    t == VarType::VAR_FUNC || t == VarType::VAR_PARTIAL
}

/// Name of a Funcref or Partial.
pub open spec fn func_name_of(t: TypVal) -> Seq<u8> {
    if t.ty == VarType::VAR_FUNC {
        match t.v { VVal::Str(s) => s, _ => Seq::empty() }
    } else {
        match t.v { VVal::Partial(Some(p)) => p.name, _ => Seq::empty() }
    }
}

/// The first `n` items of two sequences are pairwise equal.
pub open spec fn items_equal(a: Seq<TypVal>, b: Seq<TypVal>, ic: bool, n: int) -> bool
    decreases a, n,
{
    if n <= 0 || n > a.len() || n > b.len() {
        n <= 0
    } else {
        items_equal(a, b, ic, n - 1) && tv_equal_spec(a[n - 1], b[n - 1], ic)
    }
}

/// The first `n` entries of `x` are present in `y` with equal values.
pub open spec fn dict_equal_upto(x: DictVal, y: DictVal, ic: bool, n: int) -> bool
    decreases x, n,
{
    if n <= 0 || n > x.keys.len() || n > x.vals.len() {
        n <= 0
    } else {
        let j = dict_index_of(y.keys, x.keys[n - 1]);
        dict_equal_upto(x, y, ic, n - 1) && 0 <= j < y.vals.len() && tv_equal_spec(x.vals[n - 1], y.vals[j], ic)
    }
}

/// Dictionaries with the same number of entries, each entry of `x` in `y` with an equal value.
pub open spec fn dict_equal_spec(x: DictVal, y: DictVal, ic: bool) -> bool {
    x.keys.len() == y.keys.len() && dict_equal_upto(x, y, ic, x.keys.len() as int)
}

/// Lists of equal length with pairwise equal items.
pub open spec fn list_equal_spec(x: ListVal, y: ListVal, ic: bool) -> bool {
    x.items.len() == y.items.len() && items_equal(x.items, y.items, ic, x.items.len() as int)
}

/// The Partial a value holds, if it is one.
pub open spec fn partial_of(a: TypVal) -> Option<crate::typval_defs::PartialVal> {
    if a.ty == VarType::VAR_FUNC { None } else { match a.v { VVal::Partial(Some(p)) => Some(p), _ => None } }
}

/// `func_equal()`: same name, same bound dict (or both none), equal bound arguments.
pub open spec fn func_equal_spec(a: TypVal, b: TypVal, ic: bool) -> bool
    decreases a, 1int,
{
    &&& func_name_of(a) == func_name_of(b)
    &&& match (partial_of(a), partial_of(b)) {
        (Some(p), Some(q)) => {
            &&& match (p.dict, q.dict) {
                (Some(x), Some(y)) => x.keys.len() == y.keys.len() && dict_equal_upto(x, y, ic, x.keys.len() as int),
                (None, None) => true,
                _ => false,
            }
            &&& p.argv.len() == q.argv.len()
            &&& items_equal(p.argv, q.argv, ic, p.argv.len() as int)
        },
        (Some(p), None) => p.dict is None && p.argv.len() == 0,
        (None, Some(q)) => q.dict is None && q.argv.len() == 0,
        (None, None) => true,
    }
}

/// `tv_equal()`: Vimscript equality of two values.
pub open spec fn tv_equal_spec(a: TypVal, b: TypVal, ic: bool) -> bool
    decreases a, 2int,
{
    if is_func_type(a.ty) && is_func_type(b.ty) {
        if (a.ty == VarType::VAR_PARTIAL && a.v == VVal::Partial(None)) || (b.ty == VarType::VAR_PARTIAL && b.v == VVal::Partial(None)) {
            false
        } else {
            func_equal_spec(a, b, ic)
        }
    } else {
        match (a.v, b.v) {
            (VVal::Number(x), VVal::Number(y)) => x == y,
            (VVal::Float(x), VVal::Float(y)) => float_eq(x, y),
            (VVal::Str(x), VVal::Str(y)) => a.ty == b.ty && x == y,
            (VVal::Bool(x), VVal::Bool(y)) => x == y,
            (VVal::Special(x), VVal::Special(y)) => x == y,
            (VVal::List(Some(x)), VVal::List(Some(y))) => x.items.len() == y.items.len() && items_equal(x.items, y.items, ic, x.items.len() as int),
            (VVal::List(None), VVal::List(None)) => true,
            (VVal::Dict(Some(x)), VVal::Dict(Some(y))) => x.keys.len() == y.keys.len() && dict_equal_upto(x, y, ic, x.keys.len() as int),
            (VVal::Dict(None), VVal::Dict(None)) => true,
            (VVal::Blob(Some(x)), VVal::Blob(Some(y))) => x.bytes == y.bytes,
            (VVal::Blob(None), VVal::Blob(None)) => true,
            _ => false,
        }
    }
}

/// Dictionaries that compare equal have the same number of entries: a
/// Dictionary never equals one with an entry more, whichever side it is on.
pub proof fn lemma_equal_dicts_same_size(a: TypVal, b: TypVal, ic: bool)
    requires
        a.v is Dict && a.v->Dict_0 is Some, b.v is Dict && b.v->Dict_0 is Some,
        !is_func_type(a.ty) || !is_func_type(b.ty),
        tv_equal_spec(a, b, ic) || tv_equal_spec(b, a, ic),
    ensures
        a.v->Dict_0->Some_0.keys.len() == b.v->Dict_0->Some_0.keys.len(),
{
}

/// Lists that compare equal have the same number of items, whichever side
/// each is on, and their items compare equal pairwise.
pub proof fn lemma_equal_lists_same_size(a: TypVal, b: TypVal, ic: bool)
    requires
        a.v is List && a.v->List_0 is Some, b.v is List && b.v->List_0 is Some,
        !is_func_type(a.ty) || !is_func_type(b.ty),
        tv_equal_spec(a, b, ic) || tv_equal_spec(b, a, ic),
    ensures
        a.v->List_0->Some_0.items.len() == b.v->List_0->Some_0.items.len(),
        tv_equal_spec(a, b, ic) ==> forall|k: int| 0 <= k < a.v->List_0->Some_0.items.len() ==>
            tv_equal_spec(#[trigger] a.v->List_0->Some_0.items[k], b.v->List_0->Some_0.items[k], ic),
{
    if tv_equal_spec(a, b, ic) {
        let x = a.v->List_0->Some_0.items;
        let y = b.v->List_0->Some_0.items;
        lemma_items_equal_all(x, y, ic, x.len() as int);
    }
}

proof fn lemma_items_equal_all(x: Seq<TypVal>, y: Seq<TypVal>, ic: bool, n: int)
    requires items_equal(x, y, ic, n), 0 <= n,
    ensures forall|k: int| 0 <= k < n ==> tv_equal_spec(#[trigger] x[k], y[k], ic),
    decreases n,
{
    if n > 0 {
        lemma_items_equal_all(x, y, ic, n - 1);
    }
}

proof fn lemma_dict_equal_upto_keys(x: DictVal, y: DictVal, ic: bool, n: int)
    requires dict_equal_upto(x, y, ic, n), 0 <= n,
    ensures forall|k: int| 0 <= k < n ==> dict_index_of(y.keys, #[trigger] x.keys[k]) >= 0,
    decreases n,
{
    if n > 0 {
        lemma_dict_equal_upto_keys(x, y, ic, n - 1);
    }
}

/// The same, for `dict_equal_spec` (what "tv_dict_equal()" answers); and
/// each key of the first is a key of the second.
pub proof fn lemma_dict_equal_same_size(x: DictVal, y: DictVal, ic: bool)
    requires dict_equal_spec(x, y, ic) || dict_equal_spec(y, x, ic),
    ensures
        x.keys.len() == y.keys.len(),
        dict_equal_spec(x, y, ic) ==> forall|k: int| 0 <= k < x.keys.len() ==> dict_index_of(y.keys, #[trigger] x.keys[k]) >= 0,
{
    if dict_equal_spec(x, y, ic) {
        lemma_dict_equal_upto_keys(x, y, ic, x.keys.len() as int);
    }
}

/// Byte strings equal.
pub fn bytes_eq(a: &[u8], b: &[u8]) -> (r: bool)
    ensures r == (a@ == b@),
{
    if a.len() != b.len() {
        return false;
    }
    let mut i: usize = 0;
    while i < a.len()
        invariant
            i <= a.len(),
            a.len() == b.len(),
            forall|k: int| 0 <= k < i ==> a@[k] == b@[k],
        decreases a.len() - i,
    {
        if a[i] != b[i] {
            return false;
        }
        i += 1;
    }
    assert(a@ =~= b@);
    true
}

/// Index of `key` among the dictionary entries (the last match), or -1.
pub fn dict_find_index(d: &dict_T, key: &[u8]) -> (r: Option<usize>)
    ensures
        match r {
            Some(i) => i as int == dict_index_of(d@.keys, key@) && i < d.dv_hashtab@.len(),
            None => dict_index_of(d@.keys, key@) == -1,
        },
{
    let mut i: usize = d.dv_hashtab.len();
    proof {
        assert(d@.keys.subrange(0, i as int) =~= d@.keys);
    }
    while i > 0
        invariant
            i <= d.dv_hashtab@.len(),
            dict_index_of(d@.keys, key@) == dict_index_of(d@.keys.subrange(0, i as int), key@),
        decreases i,
    {
        let ghost sub = d@.keys.subrange(0, i as int);
        if bytes_eq(d.dv_hashtab[i - 1].di_key.as_slice(), key) {
            return Some(i - 1);
        }
        assert(sub.drop_last() =~= d@.keys.subrange(0, i - 1));
        i -= 1;
    }
    None
}

proof fn lemma_dict_index_bounds(keys: Seq<Seq<u8>>, key: Seq<u8>)
    ensures -1 <= dict_index_of(keys, key) < keys.len(),
        dict_index_of(keys, key) >= 0 ==> keys[dict_index_of(keys, key)] == key,
    decreases keys.len(),
{
    if keys.len() > 0 && keys.last() != key {
        lemma_dict_index_bounds(keys.drop_last(), key);
    }
}

fn func_equal(tv1: &typval_T, tv2: &typval_T, ic: bool) -> (r: bool)
    requires is_func_type(tv1.v_type), is_func_type(tv2.v_type),
        !(tv1.v_type == VarType::VAR_PARTIAL && tv1@.v == VVal::Partial(None)),
        !(tv2.v_type == VarType::VAR_PARTIAL && tv2@.v == VVal::Partial(None)),
    ensures r == func_equal_spec(tv1@, tv2@, ic),
    decreases tv1, 1int,
{
    let empty: Vec<u8> = Vec::new();
    let n1: &Vec<u8> = if tv1.v_type == VarType::VAR_FUNC {
        match &tv1.vval { typval_vval_union::v_string(s) => s, _ => &empty }
    } else {
        match &tv1.vval { typval_vval_union::v_partial(Some(p)) => &p.pt_name, _ => &empty }
    };
    let n2: &Vec<u8> = if tv2.v_type == VarType::VAR_FUNC {
        match &tv2.vval { typval_vval_union::v_string(s) => s, _ => &empty }
    } else {
        match &tv2.vval { typval_vval_union::v_partial(Some(p)) => &p.pt_name, _ => &empty }
    };
    if !bytes_eq(n1.as_slice(), n2.as_slice()) {
        return false;
    }
    let p1: Option<&partial_T> = if tv1.v_type == VarType::VAR_FUNC { None } else {
        match &tv1.vval { typval_vval_union::v_partial(Some(p)) => Some(p), _ => None }
    };
    let p2: Option<&partial_T> = if tv2.v_type == VarType::VAR_FUNC { None } else {
        match &tv2.vval { typval_vval_union::v_partial(Some(p)) => Some(p), _ => None }
    };
    match (p1, p2) {
        (Some(p), Some(q)) => {
            proof {
                assert(decreases_to!(tv1 => tv1.vval));
                assert(decreases_to!(tv1.vval => tv1.vval->v_partial_0));
                assert(decreases_to!(tv1.vval->v_partial_0 => *p));
            }
            match (&p.pt_dict, &q.pt_dict) {
                (Some(x), Some(y)) => {
                    if !tv_dict_equal(x, y, ic) {
                        return false;
                    }
                },
                (None, None) => {},
                _ => { return false; },
            }
            proof { lemma_items_view_index_len(p.pt_argv@); lemma_items_view_index_len(q.pt_argv@); }
            items_eq_loop(&p.pt_argv, &q.pt_argv, ic)
        },
        (Some(p), None) => {
            proof { lemma_items_view_index_len(p.pt_argv@); }
            p.pt_dict.is_none() && p.pt_argv.len() == 0
        },
        (None, Some(q)) => {
            proof { lemma_items_view_index_len(q.pt_argv@); }
            q.pt_dict.is_none() && q.pt_argv.len() == 0
        },
        (None, None) => true,
    }
}

proof fn lemma_items_view_index_len(a: Seq<typval_T>)
    ensures items_view(a).len() == a.len(),
{
}

/// Pairwise equality of two item vectors (part of `tv_equal`).
#[verifier::loop_isolation(false)]
fn items_eq_loop(a: &Vec<typval_T>, b: &Vec<typval_T>, ic: bool) -> (r: bool)
    ensures r == (items_view(a@).len() == items_view(b@).len() && items_equal(items_view(a@), items_view(b@), ic, a@.len() as int)),
    decreases a, 0int,
{
    if a.len() != b.len() {
        return false;
    }
    let mut i: usize = 0;
    while i < a.len()
        invariant
            i <= a.len(),
            a.len() == b.len(),
            items_equal(items_view(a@), items_view(b@), ic, i as int),
        decreases a.len() - i,
    {
        proof {
            assert(decreases_to!(a => a@[i as int]));
            lemma_items_view_index(a@, i as int);
            lemma_items_view_index(b@, i as int);
        }
        if !tv_equal(&a[i], &b[i], ic) {
            assert(!items_equal(items_view(a@), items_view(b@), ic, i + 1));
            proof { lemma_items_equal_prefix(items_view(a@), items_view(b@), ic, i + 1, a.len() as int); }
            return false;
        }
        i += 1;
    }
    true
}

proof fn lemma_items_equal_prefix(a: Seq<TypVal>, b: Seq<TypVal>, ic: bool, k: int, n: int)
    requires 0 <= k <= n <= a.len(), n <= b.len(), !items_equal(a, b, ic, k),
    ensures !items_equal(a, b, ic, n),
    decreases n - k,
{
    if k < n {
        lemma_items_equal_prefix(a, b, ic, k + 1, n);
    }
}

proof fn lemma_dict_equal_prefix(x: DictVal, y: DictVal, ic: bool, k: int, n: int)
    requires 0 <= k <= n <= x.keys.len(), n <= x.vals.len(), !dict_equal_upto(x, y, ic, k),
    ensures !dict_equal_upto(x, y, ic, n),
    decreases n - k,
{
    if k < n {
        lemma_dict_equal_prefix(x, y, ic, k + 1, n);
    }
}

/// Equal lengths and pairwise equal items.
pub fn tv_list_equal(l1: &list_T, l2: &list_T, ic: bool) -> (r: bool)
    ensures r == list_equal_spec(l1@, l2@, ic),
    decreases l1, 1int,
{
    items_eq_loop(&l1.lv_items, &l2.lv_items, ic)
}

/// The same number of entries, and each entry of
/// `d1` present in `d2` with an equal value.
#[verifier::loop_isolation(false)]
pub fn tv_dict_equal(d1: &dict_T, d2: &dict_T, ic: bool) -> (r: bool)
    ensures r == dict_equal_spec(d1@, d2@, ic),
    decreases d1, 1int,
{
    if d1.dv_hashtab.len() != d2.dv_hashtab.len() {
        return false;
    }
    let mut i: usize = 0;
    while i < d1.dv_hashtab.len()
        invariant
            i <= d1.dv_hashtab.len(),
            dict_equal_upto(d1@, d2@, ic, i as int),
        decreases d1.dv_hashtab.len() - i,
    {
        proof {
            assert(decreases_to!(d1.dv_hashtab => d1.dv_hashtab@[i as int]));
            assert(decreases_to!(d1 => d1.dv_hashtab@[i as int].di_tv));
            lemma_dict_index_bounds(d2@.keys, d1@.keys[i as int]);
        }
        let j = dict_find_index(d2, d1.dv_hashtab[i].di_key.as_slice());
        let ok = match j {
            None => false,
            Some(j) => tv_equal(&d1.dv_hashtab[i].di_tv, &d2.dv_hashtab[j].di_tv, ic),
        };
        if !ok {
            assert(!dict_equal_upto(d1@, d2@, ic, i + 1));
            proof { lemma_dict_equal_prefix(d1@, d2@, ic, i + 1, d1.dv_hashtab@.len() as int); }
            return false;
        }
        i += 1;
    }
    true
}

/// Equal bytes.
pub fn tv_blob_equal(b1: &blob_T, b2: &blob_T) -> (r: bool)
    ensures r == (b1@.bytes == b2@.bytes),
{
    bytes_eq(b1.bv_ga.as_slice(), b2.bv_ga.as_slice())
}

/// Vimscript equality. Funcrefs and Partials compare by
/// name, bound dict and bound arguments; Numbers and Floats never compare
/// equal to each other here; Lists, Dicts and Blobs compare structurally.
pub fn tv_equal(tv1: &typval_T, tv2: &typval_T, ic: bool) -> (r: bool)
    ensures r == tv_equal_spec(tv1@, tv2@, ic),
    decreases tv1, 2int,
{
    if (tv1.v_type == VarType::VAR_FUNC || tv1.v_type == VarType::VAR_PARTIAL)
        && (tv2.v_type == VarType::VAR_FUNC || tv2.v_type == VarType::VAR_PARTIAL) {
        let n1 = tv1.v_type == VarType::VAR_PARTIAL && matches!(&tv1.vval, typval_vval_union::v_partial(None));
        let n2 = tv2.v_type == VarType::VAR_PARTIAL && matches!(&tv2.vval, typval_vval_union::v_partial(None));
        if n1 || n2 {
            return false;
        }
        return func_equal(tv1, tv2, ic);
    }
    match (&tv1.vval, &tv2.vval) {
        (typval_vval_union::v_number(a), typval_vval_union::v_number(b)) => *a == *b,
        (typval_vval_union::v_float(a), typval_vval_union::v_float(b)) => float_eq_exec(*a, *b),
        (typval_vval_union::v_string(a), typval_vval_union::v_string(b)) => tv1.v_type == tv2.v_type && bytes_eq(a.as_slice(), b.as_slice()),
        (typval_vval_union::v_bool(a), typval_vval_union::v_bool(b)) => *a == *b,
        (typval_vval_union::v_special(a), typval_vval_union::v_special(b)) => *a == *b,
        (typval_vval_union::v_list(Some(a)), typval_vval_union::v_list(Some(b))) => {
            proof { assert(decreases_to!(tv1 => tv1.vval)); assert(decreases_to!(tv1.vval => tv1.vval->v_list_0)); }
            tv_list_equal(a, b, ic)
        },
        (typval_vval_union::v_list(None), typval_vval_union::v_list(None)) => true,
        (typval_vval_union::v_dict(Some(a)), typval_vval_union::v_dict(Some(b))) => {
            proof { assert(decreases_to!(tv1 => tv1.vval)); assert(decreases_to!(tv1.vval => tv1.vval->v_dict_0)); }
            tv_dict_equal(a, b, ic)
        },
        (typval_vval_union::v_dict(None), typval_vval_union::v_dict(None)) => true,
        (typval_vval_union::v_blob(Some(a)), typval_vval_union::v_blob(Some(b))) => tv_blob_equal(a, b),
        (typval_vval_union::v_blob(None), typval_vval_union::v_blob(None)) => true,
        _ => false,
    }
}

} // verus!
